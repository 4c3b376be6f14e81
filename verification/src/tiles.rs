use vstd::prelude::*;

use crate::geo::strs_view;
use crate::text::{append_str, chars_to_string, dec_digits, u64_to_dec};

verus! {

/// Configuration for a tile-generation run.
#[derive(Debug, Clone, Copy, PartialEq, Eq, Structural)]
pub struct TippecanoeConfig {
    pub min_zoom: u8,
    pub max_zoom: u8,
    pub no_feature_limit: bool,
    pub no_tile_size_limit: bool,
    pub drop_densest_as_needed: bool,
}

impl Default for TippecanoeConfig {
    /// The default run: zoom 0 to 14, with no limits lifted.
    fn default() -> (r: Self)
        ensures
            r.min_zoom == 0,
            r.max_zoom == 14,
            !r.no_feature_limit,
            !r.no_tile_size_limit,
            !r.drop_densest_as_needed,
    {
        Self {
            min_zoom: 0,
            max_zoom: 14,
            no_feature_limit: false,
            no_tile_size_limit: false,
            drop_densest_as_needed: false,
        }
    }
}

/// Named presets that configure zoom ranges for common data types.
#[derive(Debug, Clone, Copy, PartialEq, Eq, Structural)]
pub enum Preset {
    Custom,
    Generic,
    Parcels,
    Points,
}

impl Preset {
    /// The label shown for the preset.
    pub fn label(self) -> (r: &'static str)
        ensures
            r@ == (match self {
                Preset::Custom => "Custom"@,
                Preset::Generic => "Generic (6-18)"@,
                Preset::Parcels => "Parcels (0-16)"@,
                Preset::Points => "Points (0-18)"@,
            }),
{
        match self {
            Preset::Custom => "Custom",
            Preset::Generic => "Generic (6-18)",
            Preset::Parcels => "Parcels (0-16)",
            Preset::Points => "Points (0-18)",
        }
    }
}

impl TippecanoeConfig {
    /// Applies a named preset, overwriting the zoom range; `Custom` changes
    /// nothing.
    pub fn apply_preset(&mut self, preset: Preset)
        ensures
            *final(self) == (match preset {
                Preset::Custom => *old(self),
                Preset::Generic => (TippecanoeConfig {
                    min_zoom: 6,
                    max_zoom: 18,
                    ..*old(self)
                }),
                Preset::Parcels => (TippecanoeConfig {
                    min_zoom: 0,
                    max_zoom: 16,
                    ..*old(self)
                }),
                Preset::Points => (TippecanoeConfig {
                    min_zoom: 0,
                    max_zoom: 18,
                    ..*old(self)
                }),
            }),
    {
        match preset {
            Preset::Custom => {},
            Preset::Generic => {
                self.min_zoom = 6;
                self.max_zoom = 18;
            },
            Preset::Parcels => {
                self.min_zoom = 0;
                self.max_zoom = 16;
            },
            Preset::Points => {
                self.min_zoom = 0;
                self.max_zoom = 18;
            },
        }
    }
}

/// The argument list of a tile-generation run: fixed flags, the zoom range,
/// the output, the optional limit switches, and the input last.
pub open spec fn spec_tile_args(
    c: TippecanoeConfig,
    output: Seq<char>,
    input: Seq<char>,
) -> Seq<Seq<char>> {
    seq![
        "--force"@,
        "--read-parallel"@,
        "--minimum-zoom="@ + dec_digits(c.min_zoom as int),
        "--maximum-zoom="@ + dec_digits(c.max_zoom as int),
        "--output="@ + output,
    ] + (if c.no_feature_limit {
        seq!["--no-feature-limit"@]
    } else {
        Seq::empty()
    }) + (if c.no_tile_size_limit {
        seq!["--no-tile-size-limit"@]
    } else {
        Seq::empty()
    }) + (if c.drop_densest_as_needed {
        seq!["--drop-densest-as-needed"@]
    } else {
        Seq::empty()
    }) + seq![input]
}

/// Builds the argument list for a tile-generation run over `input`, writing
/// to `output`.
pub fn tile_args(config: &TippecanoeConfig, output: &str, input: &str) -> (r: Vec<String>)
    ensures
        strs_view(r@) == spec_tile_args(*config, output@, input@),
{
    let mut args: Vec<String> = Vec::new();
    args.push("--force".to_owned());
    args.push("--read-parallel".to_owned());
    let mut minz: Vec<char> = Vec::new();
    append_str(&mut minz, "--minimum-zoom=");
    let mut dmin = u64_to_dec(config.min_zoom as u64);
    minz.append(&mut dmin);
    args.push(chars_to_string(&minz));
    let mut maxz: Vec<char> = Vec::new();
    append_str(&mut maxz, "--maximum-zoom=");
    let mut dmax = u64_to_dec(config.max_zoom as u64);
    maxz.append(&mut dmax);
    args.push(chars_to_string(&maxz));
    let mut outv: Vec<char> = Vec::new();
    append_str(&mut outv, "--output=");
    append_str(&mut outv, output);
    args.push(chars_to_string(&outv));
    if config.no_feature_limit {
        args.push("--no-feature-limit".to_owned());
    }
    if config.no_tile_size_limit {
        args.push("--no-tile-size-limit".to_owned());
    }
    if config.drop_densest_as_needed {
        args.push("--drop-densest-as-needed".to_owned());
    }
    args.push(input.to_owned());
    proof {
        assert(strs_view(args@) =~= spec_tile_args(*config, output@, input@));
    }
    args
}

} // verus!
