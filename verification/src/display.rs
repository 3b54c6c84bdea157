//! What is known of the window's display: its color mode, its luminance, and the labels of the info
//! overlay. Luminances are the bits of a float.

use vstd::prelude::*;

use crate::strings;
use crate::strings::push_decimal;

verus! {

/// The advanced color modes of a display.
#[derive(Clone, Copy, PartialEq, Eq, Structural, Debug)]
pub enum AdvancedColorKind {
    StandardDynamicRange,
    WideColorGamut,
    HighDynamicRange,
}

/// 1.0 as float bits.
pub const UNIT_BITS: u32 = 0x3F80_0000;

/// The BT.2100 reference white of 203 nits, the SDR tone-map target, as float bits.
pub const SDR_TONE_MAP_TARGET_BITS: u32 = 0x434B_0000;

/// The HDR tone-map target when the monitor reports no peak luminance, 600 nits, as float bits.
pub const HDR_PEAK_FALLBACK_BITS: u32 = 0x4416_0000;

/// Bits of the float infinity; every positive float has bits up to these.
pub const INFINITY_BITS: u32 = 0x7F80_0000;

/// The wire depth of a display that does not say.
pub const DEFAULT_BITS_PER_COLOR: u32 = 8;

/// Output capabilities from one advanced-color snapshot; unknown state falls back to SDR.
#[derive(Clone, Copy, PartialEq, Eq, Debug)]
pub struct DisplayCapabilities {
    pub hdr: bool,
    /// Wire depth of the display path, shown in the info panel; never picks formats.
    pub bits_per_color: u32,
    pub maximum_luminance_nits: Option<u32>,
    pub maximum_full_frame_luminance_nits: Option<u32>,
    /// Advanced color (HDR or SDR auto color management) is on for this output.
    pub advanced_color: bool,
    /// SDR white over the 80-nit reference; meaningful on HDR outputs only.
    pub sdr_white_boost: u32,
}

/// Float bits of a number above zero.
pub open spec fn above_zero(bits: u32) -> bool {
    0 < bits <= INFINITY_BITS
}

/// A luminance that is reported and means something: one above zero.
pub open spec fn meaningful_nits(bits: Option<u32>) -> Option<u32> {
    match bits {
        Some(value) => if above_zero(value) {
            Some(value)
        } else {
            None
        },
        None => None,
    }
}

pub fn reported_nits(bits: Option<u32>) -> (nits: Option<u32>)
    ensures
        nits == meaningful_nits(bits),
{
    match bits {
        Some(value) => {
            if is_above_zero(value) {
                Some(value)
            } else {
                None
            }
        },
        None => None,
    }
}

impl DisplayCapabilities {
    /// The capabilities a snapshot stands for; what it does not say falls back to SDR.
    pub fn from_snapshot(
        kind: Option<AdvancedColorKind>,
        bits_per_color: Option<u32>,
        maximum_luminance_nits: Option<u32>,
        maximum_full_frame_luminance_nits: Option<u32>,
        sdr_white_boost: Option<u32>,
    ) -> (capabilities: Self)
        ensures
            capabilities.hdr == (kind == Some(AdvancedColorKind::HighDynamicRange)),
            capabilities.advanced_color == (kind == Some(AdvancedColorKind::HighDynamicRange)
                || kind == Some(AdvancedColorKind::WideColorGamut)),
            capabilities.bits_per_color == (match bits_per_color {
                Some(bits) => bits,
                None => DEFAULT_BITS_PER_COLOR,
            }),
            capabilities.maximum_luminance_nits == meaningful_nits(maximum_luminance_nits),
            capabilities.maximum_full_frame_luminance_nits == meaningful_nits(
                maximum_full_frame_luminance_nits,
            ),
            capabilities.sdr_white_boost == (match sdr_white_boost {
                Some(boost) => boost,
                None => UNIT_BITS,
            }),
    {
        let hdr = match kind {
            Some(AdvancedColorKind::HighDynamicRange) => true,
            _ => false,
        };
        let wide = match kind {
            Some(AdvancedColorKind::WideColorGamut) => true,
            _ => false,
        };
        DisplayCapabilities {
            hdr,
            bits_per_color: match bits_per_color {
                Some(bits) => bits,
                None => DEFAULT_BITS_PER_COLOR,
            },
            maximum_luminance_nits: reported_nits(maximum_luminance_nits),
            maximum_full_frame_luminance_nits: reported_nits(maximum_full_frame_luminance_nits),
            advanced_color: hdr || wide,
            sdr_white_boost: match sdr_white_boost {
                Some(boost) => boost,
                None => UNIT_BITS,
            },
        }
    }

    pub open spec fn mode(self) -> Seq<char> {
        if self.hdr {
            "HDR"@
        } else if self.advanced_color {
            "WCG"@
        } else {
            "SDR"@
        }
    }

    /// The display's advanced color mode.
    pub fn color_mode_label(&self) -> (label: &'static str)
        ensures
            label@ == self.mode(),
    {
        if self.hdr {
            "HDR"
        } else if self.advanced_color {
            "WCG"
        } else {
            "SDR"
        }
    }

    /// The tone-map target and paired full-frame limit for this display.
    pub open spec fn targets(self) -> (u32, u32) {
        let target = if self.hdr {
            match self.maximum_luminance_nits {
                Some(nits) => nits,
                None => HDR_PEAK_FALLBACK_BITS,
            }
        } else {
            SDR_TONE_MAP_TARGET_BITS
        };
        let full_frame = if self.hdr {
            match self.maximum_full_frame_luminance_nits {
                Some(nits) => nits,
                None => target,
            }
        } else {
            target
        };
        (target, full_frame)
    }

    pub fn tone_map_targets(&self) -> (targets: (u32, u32))
        ensures
            targets == self.targets(),
    {
        if !self.hdr {
            return (SDR_TONE_MAP_TARGET_BITS, SDR_TONE_MAP_TARGET_BITS);
        }
        let target: u32 = match self.maximum_luminance_nits {
            Some(nits) => nits,
            None => HDR_PEAK_FALLBACK_BITS,
        };
        let full_frame: u32 = match self.maximum_full_frame_luminance_nits {
            Some(nits) => nits,
            None => target,
        };
        (target, full_frame)
    }

    /// The luminance gain maps may reach: the peak, capped by the sustained full-frame limit; None
    /// outside HDR and without a peak report.
    pub fn gain_map_ceiling(&self) -> (ceiling: Option<u32>)
        requires
            self.maximum_luminance_nits matches Some(nits) ==> above_zero(nits),
            self.maximum_full_frame_luminance_nits matches Some(nits) ==> above_zero(nits),
        ensures
            ceiling == (match (self.hdr, self.maximum_luminance_nits) {
                (true, Some(peak)) => match self.maximum_full_frame_luminance_nits {
                    Some(full_frame) => if full_frame < peak {
                        Some(full_frame)
                    } else {
                        Some(peak)
                    },
                    None => Some(peak),
                },
                _ => None,
            }),
    {
        if !self.hdr {
            return None;
        }
        match self.maximum_luminance_nits {
            Some(peak) => match self.maximum_full_frame_luminance_nits {
                Some(full_frame) => {
                    if full_frame < peak {
                        Some(full_frame)
                    } else {
                        Some(peak)
                    }
                },
                None => Some(peak),
            },
            None => None,
        }
    }

    /// SDR white boost for the given output; 1.0 outside HDR (managed output is display-referred).
    pub fn sdr_white_boost_for(&self, hdr_output: bool) -> (boost: u32)
        ensures
            boost == (if hdr_output {
                self.sdr_white_boost
            } else {
                UNIT_BITS
            }),
    {
        if hdr_output {
            self.sdr_white_boost
        } else {
            UNIT_BITS
        }
    }

    /// Whether the display's own profile is the destination: only where nothing manages its color.
    pub fn reads_display_profile(&self) -> (read: bool)
        ensures
            read == (!self.hdr && !self.advanced_color),
    {
        !self.hdr && !self.advanced_color
    }
}

/// Advanced-color mode, gamut label, and wire depth of the display, for the info overlay.
#[derive(Clone, Copy, Debug)]
pub struct DisplayLabels {
    pub color_mode: &'static str,
    pub gamut: &'static str,
    pub bits_per_color: u32,
}

impl DisplayLabels {
    /// The labels of a display; a gamut that is not known is called so.
    pub fn new(capabilities: &DisplayCapabilities, gamut: Option<&'static str>) -> (labels: Self)
        ensures
            labels.color_mode@ == capabilities.mode(),
            labels.gamut@ == (match gamut {
                Some(name) => name@,
                None => "unknown"@,
            }),
            labels.bits_per_color == capabilities.bits_per_color,
    {
        DisplayLabels {
            color_mode: capabilities.color_mode_label(),
            gamut: match gamut {
                Some(name) => name,
                None => "unknown",
            },
            bits_per_color: capabilities.bits_per_color,
        }
    }

    /// The display line mirrors the output line's "[bits] [gamut]" form.
    pub fn display_description(&self) -> (description: String)
        ensures
            description@ == strings::decimal_text(self.bits_per_color as int) + "-bit "@
                + self.gamut@,
    {
        let mut description = String::new();
        push_decimal(&mut description, self.bits_per_color as u64);
        description.append("-bit ");
        description.append(self.gamut);
        assert(description@ =~= strings::decimal_text(self.bits_per_color as int) + "-bit "@
            + self.gamut@);
        description
    }
}

/// A device name as the system reports it.
pub open spec fn name_models(names: Seq<Option<Vec<u16>>>) -> Seq<Option<Seq<u16>>> {
    names.map_values(
        |name: Option<Vec<u16>>|
            match name {
                Some(units) => Some(units@),
                None => None,
            },
    )
}

/// The first display path, from an index on, that drives this device; a path whose name cannot be read
/// drives none.
pub open spec fn driving_path_from(names: Seq<Option<Seq<u16>>>, device: Seq<u16>, index: int) -> Option<
    int,
>
    decreases names.len() - index,
{
    if index < 0 || index >= names.len() {
        None
    } else if names[index] == Some(device) {
        Some(index)
    } else {
        driving_path_from(names, device, index + 1)
    }
}

fn same_name(first: &Vec<u16>, second: &Vec<u16>) -> (same: bool)
    ensures
        same == (first@ == second@),
{
    if first.len() != second.len() {
        return false;
    }
    let mut index: usize = 0;
    while index < first.len()
        invariant
            first.len() == second.len(),
            index <= first.len(),
            forall|earlier: int| 0 <= earlier < index ==> first@[earlier] == second@[earlier],
        decreases first.len() - index,
    {
        if first[index] != second[index] {
            assert(first@[index as int] != second@[index as int]);
            return false;
        }
        index += 1;
    }
    assert(first@ =~= second@);
    true
}

/// The display path that drives a monitor, by its device name.
pub fn driving_path(names: &Vec<Option<Vec<u16>>>, device: &Vec<u16>) -> (path: Option<usize>)
    ensures
        match path {
            Some(index) => driving_path_from(name_models(names@), device@, 0) == Some(index as int),
            None => driving_path_from(name_models(names@), device@, 0) is None,
        },
{
    let ghost models = name_models(names@);
    let mut index: usize = 0;
    while index < names.len()
        invariant
            models == name_models(names@),
            index <= names.len(),
            driving_path_from(models, device@, 0) == driving_path_from(
                models,
                device@,
                index as int,
            ),
        decreases names.len() - index,
    {
        match &names[index] {
            Some(name) => {
                assert(models[index as int] == Some(name@));
                if same_name(name, device) {
                    return Some(index);
                }
            },
            None => {
                assert(models[index as int] is None);
            },
        }
        index += 1;
    }
    None
}

/// The first output, from an index on, on this monitor.
pub open spec fn output_from(outputs: Seq<(u64, u32)>, monitor: u64, index: int) -> Option<u32>
    decreases outputs.len() - index,
{
    if index < 0 || index >= outputs.len() {
        None
    } else if outputs[index].0 == monitor {
        if outputs[index].1 > 0 {
            Some(outputs[index].1)
        } else {
            None
        }
    } else {
        output_from(outputs, monitor, index + 1)
    }
}

/// The wire depth of a monitor's output, from each output's monitor and depth; a depth of nothing is
/// none.
pub fn output_depth(outputs: &Vec<(u64, u32)>, monitor: u64) -> (bits: Option<u32>)
    ensures
        bits == output_from(outputs@, monitor, 0),
{
    let mut index: usize = 0;
    while index < outputs.len()
        invariant
            index <= outputs.len(),
            output_from(outputs@, monitor, 0) == output_from(outputs@, monitor, index as int),
        decreases outputs.len() - index,
    {
        if outputs[index].0 == monitor {
            if outputs[index].1 > 0 {
                return Some(outputs[index].1);
            } else {
                return None;
            }
        }
        index += 1;
    }
    None
}

/// A display's primaries in xy, each coordinate as the bits of a float.
#[derive(Clone, Copy, PartialEq, Eq, Debug)]
pub struct DisplayGamut {
    pub red: (u32, u32),
    pub green: (u32, u32),
    pub blue: (u32, u32),
}

fn is_above_zero(bits: u32) -> (above: bool)
    ensures
        above == above_zero(bits),
{
    0 < bits && bits <= INFINITY_BITS
}

impl DisplayGamut {
    /// True when the display reported real chromaticities rather than zeros.
    pub fn is_known(&self) -> (known: bool)
        ensures
            known == (above_zero(self.red.0) || above_zero(self.red.1) || above_zero(self.green.0)
                || above_zero(self.green.1) || above_zero(self.blue.0) || above_zero(self.blue.1)),
    {
        is_above_zero(self.red.0) || is_above_zero(self.red.1) || is_above_zero(self.green.0)
            || is_above_zero(self.green.1) || is_above_zero(self.blue.0) || is_above_zero(
            self.blue.1,
        )
    }
}

} // verus!
