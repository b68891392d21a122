use vstd::prelude::*;

use crate::text::text_is;

verus! {

/// Output size of a poster: one of three presets, or a custom width and height.
#[derive(Clone, Copy, Debug, PartialEq, Eq, Structural)]
pub enum Resolution {
    P480,
    P720,
    P1080,
    Custom { width: u32, height: u32 },
}

/// The message given for a custom size with a zero side.
pub open spec fn zero_side_message() -> Seq<char> {
    "自定义分辨率的宽高必须大于零"@
}

/// Width and height in pixels, where the resolution has usable ones.
pub open spec fn spec_dimensions(r: Resolution) -> Option<(u32, u32)> {
    match r {
        Resolution::P480 => Some((854u32, 480u32)),
        Resolution::P720 => Some((1280u32, 720u32)),
        Resolution::P1080 => Some((1920u32, 1080u32)),
        Resolution::Custom { width, height } => if width == 0 || height == 0 {
            None
        } else {
            Some((width, height))
        },
    }
}

impl Default for Resolution {
    fn default() -> (r: Self)
        ensures
            r == Resolution::P1080,
    {
        Resolution::P1080
    }
}

impl Resolution {
    /// Converts the configured resolution into the canvas width and height.
    ///
    /// A custom size with a zero side is refused, so that no empty canvas is made.
    pub fn dimensions(self) -> (res: Result<(u32, u32), String>)
        ensures
            spec_dimensions(self) matches Some(d) ==> res == Ok::<(u32, u32), String>(d),
            spec_dimensions(self) is None ==> (res matches Err(msg) && msg@ == zero_side_message()),
    {
        match self {
            Resolution::P480 => Ok((854, 480)),
            Resolution::P720 => Ok((1280, 720)),
            Resolution::P1080 => Ok((1920, 1080)),
            Resolution::Custom { width, height } => {
                if width == 0 || height == 0 {
                    Err(String::from_str("自定义分辨率的宽高必须大于零"))
                } else {
                    Ok((width, height))
                }
            },
        }
    }
}


/// How a resolution is written in a configuration file: a preset name such as
/// `1080p`, or a mapping with named `width` and `height`.
#[derive(Debug)]
pub enum ResolutionRepr {
    Preset(String),
    Custom { width: u32, height: u32 },
}

/// The preset that a name stands for.
pub open spec fn preset_named(name: Seq<char>) -> Option<Resolution> {
    if name == "480p"@ {
        Some(Resolution::P480)
    } else if name == "720p"@ {
        Some(Resolution::P720)
    } else if name == "1080p"@ {
        Some(Resolution::P1080)
    } else {
        None
    }
}

/// The message given for a preset name that is not known.
pub open spec fn unknown_preset_message(name: Seq<char>) -> Seq<char> {
    "不支持的分辨率预设: "@ + name
}

/// What reading a written resolution gives: the resolution, or the reason it is refused.
pub open spec fn spec_from_repr(repr: ResolutionRepr) -> Result<Resolution, Seq<char>> {
    match repr {
        ResolutionRepr::Preset(name) => match preset_named(name@) {
            Some(r) => Ok(r),
            None => Err(unknown_preset_message(name@)),
        },
        ResolutionRepr::Custom { width, height } => {
            let r = Resolution::Custom { width, height };
            if spec_dimensions(r) is Some {
                Ok(r)
            } else {
                Err(zero_side_message())
            }
        },
    }
}

/// How a resolution is written: presets by name, custom sizes by their sides.
pub open spec fn spec_to_repr(r: Resolution) -> (Seq<char>, Option<(u32, u32)>) {
    match r {
        Resolution::P480 => ("480p"@, None),
        Resolution::P720 => ("720p"@, None),
        Resolution::P1080 => ("1080p"@, None),
        Resolution::Custom { width, height } => (Seq::empty(), Some((width, height))),
    }
}

/// Whether a written resolution is the written form given by `spec_to_repr`.
pub open spec fn repr_matches(repr: ResolutionRepr, form: (Seq<char>, Option<(u32, u32)>)) -> bool {
    match repr {
        ResolutionRepr::Preset(name) => form.1 is None && name@ == form.0,
        ResolutionRepr::Custom { width, height } => form.1 == Some((width, height)),
    }
}

impl Resolution {
    /// Reads a written resolution: a known preset name, or a custom size whose
    /// sides are both positive. Anything else is refused with a message.
    pub fn from_repr(repr: ResolutionRepr) -> (res: Result<Resolution, String>)
        ensures
            match (res, spec_from_repr(repr)) {
                (Ok(r), Ok(s)) => r == s,
                (Err(m), Err(s)) => m@ == s,
                _ => false,
            },
    {
        match repr {
            ResolutionRepr::Preset(name) => {
                proof {
                    reveal_strlit("480p");
                    reveal_strlit("720p");
                    reveal_strlit("1080p");
                }
                if text_is(&name, "480p") {
                    Ok(Resolution::P480)
                } else if text_is(&name, "720p") {
                    Ok(Resolution::P720)
                } else if text_is(&name, "1080p") {
                    Ok(Resolution::P1080)
                } else {
                    let mut message = String::from_str("不支持的分辨率预设: ");
                    message.append(name.as_str());
                    Err(message)
                }
            },
            ResolutionRepr::Custom { width, height } => {
                let r = Resolution::Custom { width, height };
                match r.dimensions() {
                    Ok(_) => Ok(r),
                    Err(message) => Err(message),
                }
            },
        }
    }

    /// The written form of this resolution: presets by name, custom sizes as
    /// named width and height.
    pub fn to_repr(self) -> (repr: ResolutionRepr)
        ensures
            repr_matches(repr, spec_to_repr(self)),
    {
        match self {
            Resolution::P480 => ResolutionRepr::Preset(String::from_str("480p")),
            Resolution::P720 => ResolutionRepr::Preset(String::from_str("720p")),
            Resolution::P1080 => ResolutionRepr::Preset(String::from_str("1080p")),
            Resolution::Custom { width, height } => ResolutionRepr::Custom { width, height },
        }
    }
}

/// Writing a usable resolution and reading it back gives the same resolution,
/// and every resolution that reading accepts has usable dimensions.
pub proof fn lemma_repr_round_trip(r: Resolution, repr: ResolutionRepr)
    requires
        repr_matches(repr, spec_to_repr(r)),
        spec_dimensions(r) is Some,
    ensures
        spec_from_repr(repr) == Ok::<Resolution, Seq<char>>(r),
{
    reveal_strlit("480p");
    reveal_strlit("720p");
    reveal_strlit("1080p");
    match r {
        Resolution::P720 => {
            assert("720p"@[0] != "480p"@[0]);
        },
        Resolution::P1080 => {
            assert("1080p"@.len() != "480p"@.len());
            assert("1080p"@.len() != "720p"@.len());
        },
        _ => {},
    }
}

/// Every resolution that reading accepts has positive width and height.
pub proof fn lemma_accepted_has_dimensions(repr: ResolutionRepr)
    requires
        spec_from_repr(repr) is Ok,
    ensures
        spec_dimensions(spec_from_repr(repr)->Ok_0) matches Some(d) && d.0 > 0 && d.1 > 0,
{
}

} // verus!
