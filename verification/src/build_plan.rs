//! What the build does: which shaders are compiled and when, the resource script, and the libraries
//! that are linked.

use vstd::prelude::*;

use crate::search;
use crate::search::find;
use crate::strings::{characters_of, text_of};

verus! {

/// Pixel shaders; each includes ps_shared.hlsl for the bindings and dither math.
pub const PIXEL_SHADERS: [&'static str; 4] = ["copy", "ordered", "fruit", "gain_apply"];

pub const VERTEX_SHADER: &'static str = "fullscreen_triangle";

pub const SHADER_DIRECTORY: &'static str = "res/shaders";

/// Layout of the system libraries, shared by the crate link search and the shader compiler build.
pub const LIBRARY_DIRECTORIES: [&'static str; 3] = [
    "crt/lib/x86_64",
    "sdk/lib/um/x86_64",
    "sdk/lib/ucrt/x86_64",
];

/// A file changed after another was written.
pub open spec fn changed_since(time: Option<u64>, written: u64) -> bool {
    match time {
        Some(changed) => changed > written,
        None => false,
    }
}

/// One of these files changed after another was written.
pub open spec fn any_changed_since(times: Seq<Option<u64>>, written: u64) -> bool {
    exists|index: int| 0 <= index < times.len() && changed_since(#[trigger] times[index], written)
}

/// True when the output is missing or older than an input it is generated from; an input whose time
/// cannot be read counts as old.
pub fn is_stale(output_time: Option<u64>, input_times: &Vec<Option<u64>>) -> (stale: bool)
    ensures
        stale == (match output_time {
            None => true,
            Some(written) => any_changed_since(input_times@, written),
        }),
{
    match output_time {
        None => true,
        Some(written) => {
            let mut index: usize = 0;
            while index < input_times.len()
                invariant
                    output_time == Some(written),
                    index <= input_times@.len(),
                    forall|earlier: int|
                        0 <= earlier < index ==> !changed_since(
                            #[trigger] input_times@[earlier],
                            written,
                        ),
                decreases input_times@.len() - index,
            {
                match input_times[index] {
                    Some(changed) => {
                        if changed > written {
                            assert(changed_since(input_times@[index as int], written));
                            return true;
                        }
                    },
                    None => {},
                }
                index += 1;
            }
            false
        },
    }
}

/// One shader to compile: its name and the profile it is compiled for.
#[derive(Clone, Copy, Debug)]
pub struct ShaderJob {
    pub name: &'static str,
    pub profile: &'static str,
}

/// The shaders to compile, the vertex shader first.
pub fn compile_all() -> (jobs: Vec<ShaderJob>)
    ensures
        jobs@.len() == 1 + PIXEL_SHADERS@.len(),
        jobs@[0].name@ == VERTEX_SHADER@ && jobs@[0].profile@ == "vs_5_0"@,
        forall|index: int|
            0 <= index < PIXEL_SHADERS@.len() ==> jobs@[index + 1].name@ == (
            #[trigger] PIXEL_SHADERS@[index])@ && jobs@[index + 1].profile@ == "ps_5_0"@,
{
    let mut jobs: Vec<ShaderJob> = Vec::new();
    jobs.push(ShaderJob { name: VERTEX_SHADER, profile: "vs_5_0" });
    let mut index: usize = 0;
    while index < PIXEL_SHADERS.len()
        invariant
            index <= PIXEL_SHADERS@.len(),
            jobs@.len() == 1 + index,
            jobs@[0].name@ == VERTEX_SHADER@ && jobs@[0].profile@ == "vs_5_0"@,
            forall|earlier: int|
                0 <= earlier < index ==> jobs@[earlier + 1].name@ == (
                #[trigger] PIXEL_SHADERS@[earlier])@ && jobs@[earlier + 1].profile@ == "ps_5_0"@,
        decreases PIXEL_SHADERS@.len() - index,
    {
        jobs.push(ShaderJob { name: PIXEL_SHADERS[index], profile: "ps_5_0" });
        index += 1;
    }
    jobs
}

impl ShaderJob {
    /// The file the shader is written in.
    pub fn source(&self) -> (file: String)
        ensures
            file@ == self.name@ + ".hlsl"@,
    {
        let mut file = self.name.to_owned();
        file.append(".hlsl");
        file
    }

    /// The file it is compiled into.
    pub fn output(&self) -> (file: String)
        ensures
            file@ == self.name@ + ".dxbc"@,
    {
        let mut file = self.name.to_owned();
        file.append(".dxbc");
        file
    }
}

/// A compiled shader begins with the name of its container.
pub fn is_compiled_shader(blob: &[u8]) -> (compiled: bool)
    ensures
        compiled == (blob@.len() >= 4 && blob@[0] == 0x44 && blob@[1] == 0x58 && blob@[2] == 0x42
            && blob@[3] == 0x43),
{
    blob.len() >= 4 && blob[0] == 0x44 && blob[1] == 0x58 && blob[2] == 0x42 && blob[3] == 0x43
}

/// A text of two parts.
fn joined(first: &str, second: &str) -> (text: String)
    ensures
        text@ == first@ + second@,
{
    let mut text = first.to_owned();
    text.append(second);
    text
}

/// Where the system headers and libraries are: where the environment says, under the home directory
/// otherwise.
pub fn library_root(configured: Option<&str>, home: &str) -> (root: String)
    ensures
        root@ == (match configured {
            Some(root) => root@,
            None => home@ + "/.xwin"@,
        }),
{
    match configured {
        Some(root) => root.to_owned(),
        None => joined(home, "/.xwin"),
    }
}

/// The four numbers of a version.
pub fn four_part_version(version: &str) -> (text: String)
    ensures
        text@ == version@ + ".0"@,
{
    joined(version, ".0")
}

/// A text with one character in place of another.
pub open spec fn exchanged(text: Seq<char>, from: char, to: char) -> Seq<char> {
    text.map_values(
        |character: char|
            if character == from {
                to
            } else {
                character
            },
    )
}

/// A version as the resource compiler writes it.
pub fn comma_separated(version: &str) -> (text: String)
    ensures
        text@ == exchanged(version@, '.', ','),
{
    let characters = characters_of(version);
    let mut text = String::new();
    let mut index: usize = 0;
    while index < characters.len()
        invariant
            characters@ == version@,
            index <= characters@.len(),
            text@ == exchanged(version@, '.', ',').take(index as int),
        decreases characters@.len() - index,
    {
        let ghost whole = exchanged(version@, '.', ',');
        let character = characters[index];
        let kept: char = if character == '.' {
            ','
        } else {
            character
        };
        text.push(kept);
        assert(whole.take(index + 1) =~= whole.take(index as int).push(whole[index as int]));
        index += 1;
    }
    assert(exchanged(version@, '.', ',').take(index as int) =~= exchanged(version@, '.', ','));
    text
}

/// A text with every occurrence of a pattern replaced, from the left, from a place on.
pub open spec fn replaced_from(
    text: Seq<char>,
    pattern: Seq<char>,
    replacement: Seq<char>,
    from: int,
) -> Seq<char>
    decreases text.len() - from,
{
    if pattern.len() == 0 || from < 0 || from > text.len() {
        Seq::empty()
    } else {
        match search::found_from(text, pattern, from) {
            Some(at) => if from <= at && at + pattern.len() <= text.len() {
                text.subrange(from, at) + replacement + replaced_from(
                    text,
                    pattern,
                    replacement,
                    at + pattern.len(),
                )
            } else {
                Seq::empty()
            },
            None => text.skip(from),
        }
    }
}

/// The manifest with the version in place of its mark.
pub fn manifest_text(template: &str, four_part_version: &str) -> (manifest: String)
    ensures
        manifest@ == replaced_from(template@, "@VERSION@"@, four_part_version@, 0),
{
    proof {
        reveal_strlit("@VERSION@");
    }
    let characters = characters_of(template);
    let pattern = characters_of("@VERSION@");
    let ghost mark = "@VERSION@"@;
    let ghost wanted = replaced_from(template@, mark, four_part_version@, 0);
    assert(characters.len() <= usize::MAX);
    let mut manifest = String::new();
    let mut from: usize = 0;
    let mut done: bool = false;
    assert(manifest@ + wanted =~= wanted);
    while !done
        invariant
            characters@ == template@,
            pattern@ == mark,
            mark.len() == 9,
            characters@.len() <= usize::MAX,
            from <= characters@.len(),
            wanted == replaced_from(template@, mark, four_part_version@, 0),
            !done ==> wanted == manifest@ + replaced_from(
                template@,
                mark,
                four_part_version@,
                from as int,
            ),
            done ==> wanted == manifest@,
        decreases
                (if done {
                    0
                } else {
                    characters@.len() - from + 1
                }),
    {
        let ghost before = manifest@;
        match find(characters.as_slice(), pattern.as_slice(), from) {
            Some(at) => {
                proof {
                    search::lemma_found_lies_inside(template@, mark, from as int);
                }
                let passed = text_of(
                    vstd::slice::slice_subrange(characters.as_slice(), from, at),
                );
                manifest.append(passed.as_str());
                manifest.append(four_part_version);
                assert(wanted =~= manifest@ + replaced_from(
                    template@,
                    mark,
                    four_part_version@,
                    at + 9,
                ));
                from = at + 9;
            },
            None => {
                let rest = text_of(
                    vstd::slice::slice_subrange(
                        characters.as_slice(),
                        from,
                        characters.len(),
                    ),
                );
                assert(rest@ =~= template@.skip(from as int));
                manifest.append(rest.as_str());
                done = true;
            },
        }
    }
    manifest
}

/// The resource script: the dialogs, the manifest, and what the file says of itself.
pub open spec fn script_text(
    manifest: Seq<char>,
    version: Seq<char>,
    commas: Seq<char>,
    description: Seq<char>,
) -> Seq<char> {
    "#include \"riv.rc\"\n1 24 \""@ + manifest + "\"\n1 VERSIONINFO\nFILEVERSION "@ + commas
        + "\nPRODUCTVERSION "@ + commas
        + "\nFILEOS 0x40004L\nFILETYPE 0x1L\nBEGIN\n  BLOCK \"StringFileInfo\"\n  BEGIN\n    BLOCK \"040904B0\"\n  BEGIN\n      VALUE \"FileDescription\", \""@
        + description + "\"\n      VALUE \"FileVersion\", \""@ + version
        + "\"\n      VALUE \"ProductName\", \"riv\"\n      VALUE \"ProductVersion\", \""@ + version
        + "\"\n      VALUE \"OriginalFilename\", \"riv.exe\"\n      VALUE \"LegalCopyright\", \"Licensed under GPLv3\"\n    END\n  END\n  BLOCK \"VarFileInfo\"\n  BEGIN\n    VALUE \"Translation\", 0x0409, 0x04B0\n  END\nEND\n"@
}

pub fn resource_script(manifest: &str, version: &str, description: &str) -> (script: String)
    ensures
        script@ == script_text(
            manifest@,
            version@,
            exchanged(version@ + ".0"@, '.', ','),
            description@,
        ),
{
    let four = four_part_version(version);
    let commas = comma_separated(four.as_str());
    let mut script = "#include \"riv.rc\"\n1 24 \"".to_owned();
    script.append(manifest);
    script.append("\"\n1 VERSIONINFO\nFILEVERSION ");
    script.append(commas.as_str());
    script.append("\nPRODUCTVERSION ");
    script.append(commas.as_str());
    script.append(
        "\nFILEOS 0x40004L\nFILETYPE 0x1L\nBEGIN\n  BLOCK \"StringFileInfo\"\n  BEGIN\n    BLOCK \"040904B0\"\n  BEGIN\n      VALUE \"FileDescription\", \"",
    );
    script.append(description);
    script.append("\"\n      VALUE \"FileVersion\", \"");
    script.append(version);
    script.append("\"\n      VALUE \"ProductName\", \"riv\"\n      VALUE \"ProductVersion\", \"");
    script.append(version);
    script.append(
        "\"\n      VALUE \"OriginalFilename\", \"riv.exe\"\n      VALUE \"LegalCopyright\", \"Licensed under GPLv3\"\n    END\n  END\n  BLOCK \"VarFileInfo\"\n  BEGIN\n    VALUE \"Translation\", 0x0409, 0x04B0\n  END\nEND\n",
    );
    script
}

/// A text begins with another.
pub open spec fn begins_with(text: Seq<char>, start: Seq<char>) -> bool {
    start.len() <= text.len() && text.take(start.len() as int) == start
}

/// A text ends with another.
pub open spec fn ends_with(text: Seq<char>, end: Seq<char>) -> bool {
    end.len() <= text.len() && text.skip(text.len() - end.len()) == end
}

fn occurs(text: &Vec<char>, part: &Vec<char>, at: usize) -> (occurred: bool)
    requires
        at + part@.len() <= text@.len(),
    ensures
        occurred == (text@.subrange(at as int, at + part@.len()) == part@),
{
    assert(text.len() <= usize::MAX);
    let mut index: usize = 0;
    while index < part.len()
        invariant
            at + part@.len() <= text@.len(),
            text@.len() <= usize::MAX,
            index <= part@.len(),
            forall|earlier: int| 0 <= earlier < index ==> text@[at + earlier] == part@[earlier],
        decreases part@.len() - index,
    {
        if text[at + index] != part[index] {
            assert(text@.subrange(at as int, at + part@.len())[index as int] == text@[at + index]);
            return false;
        }
        index += 1;
    }
    assert(text@.subrange(at as int, at + part@.len()) =~= part@);
    true
}

/// How a file of the codec directory is linked: a library by its bare name, an archive that keeps its
/// own name by that; anything else not at all.
pub open spec fn link_of(file_name: Seq<char>) -> Option<Seq<char>> {
    if ends_with(file_name, ".lib"@) {
        Some("static="@ + file_name.take(file_name.len() - ".lib"@.len()))
    } else if begins_with(file_name, "lib"@) && ends_with(file_name, ".a"@) {
        Some("static:+verbatim="@ + file_name)
    } else {
        None
    }
}

pub fn link_argument(file_name: &str) -> (argument: Option<String>)
    ensures
        match argument {
            Some(text) => link_of(file_name@) == Some(text@),
            None => link_of(file_name@) is None,
        },
{
    let name = characters_of(file_name);
    let library = characters_of(".lib");
    let prefix = characters_of("lib");
    let archive = characters_of(".a");
    if library.len() <= name.len() {
        let stem: usize = name.len() - library.len();
        assert(name@.subrange(stem as int, name@.len() as int) =~= name@.skip(stem as int));
        if occurs(&name, &library, stem) {
            let kept = text_of(vstd::slice::slice_subrange(name.as_slice(), 0, stem));
            assert(kept@ =~= file_name@.take(stem as int));
            return Some(joined("static=", kept.as_str()));
        }
    }
    if prefix.len() <= name.len() && archive.len() <= name.len() {
        let end: usize = name.len() - archive.len();
        assert(name@.subrange(0, prefix@.len() as int) =~= name@.take(prefix@.len() as int));
        assert(name@.subrange(end as int, name@.len() as int) =~= name@.skip(end as int));
        if occurs(&name, &prefix, 0) && occurs(&name, &archive, end) {
            return Some(joined("static:+verbatim=", file_name));
        }
    }
    None
}

/// What the shader compiler's own build is given: the flags, then the headers under the root.
pub fn compiler_include(root: &str, directory: &str) -> (argument: String)
    ensures
        argument@ == "-imsvc"@ + root@ + directory@,
{
    let mut argument = joined("-imsvc", root);
    argument.append(directory);
    argument
}

/// The library directories it is linked against.
pub fn compiler_library(root: &str, index: usize) -> (argument: String)
    requires
        index < LIBRARY_DIRECTORIES@.len(),
    ensures
        argument@ == "/libpath:"@ + root@ + "/"@ + LIBRARY_DIRECTORIES@[index as int]@,
{
    let mut argument = joined("/libpath:", root);
    argument.append("/");
    argument.append(LIBRARY_DIRECTORIES[index]);
    argument
}

} // verus!
