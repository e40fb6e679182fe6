//! The option values that select what is downloaded and how it is shown.
use vstd::prelude::*;

use crate::text::{decimal, decimal_string, first_index_of, parse_u16, parse_u16_spec};

verus! {

/// Image size requested from the archive: the `UHD` token or width by height.
#[derive(Debug, Default, Clone, Copy, PartialEq, Eq, Structural)]
pub enum Resolution {
    #[default]
    Uhd,
    Resolution(u16, u16),
}

/// Why a size or extension token was not accepted.
#[derive(Debug, Clone, Copy, PartialEq, Eq, Structural)]
pub enum OptionParseError {
    /// The size token is neither `UHD` nor has an `x` between its two numbers.
    InvalidResolution,
    /// A side of the size is not a decimal number that fits in 16 bits.
    InvalidNumber,
    /// The extension token is neither `jpg` nor `webp`.
    InvalidExtension,
}

/// The size token as the archive expects it.
pub open spec fn resolution_token(r: Resolution) -> Seq<char> {
    match r {
        Resolution::Uhd => seq!['U', 'H', 'D'],
        Resolution::Resolution(w, h) => decimal(w as nat) + seq!['x'] + decimal(h as nat),
    }
}

/// What parsing a size token gives.
pub open spec fn parse_resolution_spec(s: Seq<char>) -> Result<Resolution, OptionParseError> {
    if s == seq!['U', 'H', 'D'] {
        Ok(Resolution::Uhd)
    } else {
        match first_index_of(s, 'x') {
            None => Err(OptionParseError::InvalidResolution),
            Some(p) => {
                let w = parse_u16_spec(s.subrange(0, p));
                let h = parse_u16_spec(s.subrange(p + 1, s.len() as int));
                if w is Some && h is Some {
                    Ok(Resolution::Resolution(w.unwrap(), h.unwrap()))
                } else {
                    Err(OptionParseError::InvalidNumber)
                }
            },
        }
    }
}

/// The known sizes, in the order they are offered.
pub open spec fn known_resolutions() -> Seq<Resolution> {
    seq![
        Resolution::Uhd,
        Resolution::Resolution(1920, 1200),
        Resolution::Resolution(1920, 1080),
        Resolution::Resolution(1366, 768),
        Resolution::Resolution(1280, 768),
        Resolution::Resolution(1024, 768),
        Resolution::Resolution(800, 600),
        Resolution::Resolution(800, 480),
        Resolution::Resolution(768, 1280),
        Resolution::Resolution(720, 1280),
        Resolution::Resolution(640, 480),
        Resolution::Resolution(480, 800),
        Resolution::Resolution(400, 240),
        Resolution::Resolution(320, 240),
        Resolution::Resolution(240, 320),
    ]
}

fn find_char(s: &str, c: char) -> (r: Option<usize>)
    ensures
        r matches Some(p) ==> first_index_of(s@, c) == Some(p as int) && p < s@.len(),
        r is None ==> first_index_of(s@, c) is None,
{
    let len = s.unicode_len();
    let mut i: usize = 0;
    while i < len
        invariant
            i <= len,
            len == s@.len(),
            forall|j: int| 0 <= j < i ==> s@[j] != c,
        decreases len - i,
    {
        if s.get_char(i) == c {
            proof {
                lemma_first_index_of(s@, c, i as int);
            }
            return Some(i);
        }
        i = i + 1;
    }
    proof {
        lemma_first_index_of_none(s@, c);
    }
    None
}

proof fn lemma_first_index_of(s: Seq<char>, c: char, i: int)
    requires
        0 <= i < s.len(),
        s[i] == c,
        forall|j: int| 0 <= j < i ==> s[j] != c,
    ensures
        first_index_of(s, c) == Some(i),
    decreases i,
{
    if i > 0 {
        lemma_first_index_of(s.drop_first(), c, i - 1);
    }
}

proof fn lemma_first_index_of_none(s: Seq<char>, c: char)
    requires
        forall|j: int| 0 <= j < s.len() ==> s[j] != c,
    ensures
        first_index_of(s, c) is None,
    decreases s.len(),
{
    if s.len() > 0 {
        lemma_first_index_of_none(s.drop_first(), c);
    }
}

impl Resolution {
    /// The known sizes, in the order they are offered.
    pub fn all() -> (r: Vec<Resolution>)
        ensures
            r@ == known_resolutions(),
    {
        let r = vec![
            Resolution::Uhd,
            Resolution::Resolution(1920, 1200),
            Resolution::Resolution(1920, 1080),
            Resolution::Resolution(1366, 768),
            Resolution::Resolution(1280, 768),
            Resolution::Resolution(1024, 768),
            Resolution::Resolution(800, 600),
            Resolution::Resolution(800, 480),
            Resolution::Resolution(768, 1280),
            Resolution::Resolution(720, 1280),
            Resolution::Resolution(640, 480),
            Resolution::Resolution(480, 800),
            Resolution::Resolution(400, 240),
            Resolution::Resolution(320, 240),
            Resolution::Resolution(240, 320),
        ];
        assert(r@ =~= known_resolutions());
        r
    }

    /// The size token: `UHD`, or `{width}x{height}`.
    pub fn to_string(&self) -> (r: String)
        ensures
            r@ == resolution_token(*self),
    {
        match self {
            Resolution::Uhd => {
                proof {
                    reveal_strlit("UHD");
                }
                String::from_str("UHD")
            },
            Resolution::Resolution(w, h) => {
                let mut s = decimal_string(*w as u64);
                proof {
                    reveal_strlit("x");
                }
                s.append("x");
                let t = decimal_string(*h as u64);
                s.append(t.as_str());
                s
            },
        }
    }

    /// Parses a size token. Sizes outside the known list are accepted too.
    pub fn from_str(s: &str) -> (r: Result<Resolution, OptionParseError>)
        ensures
            r == parse_resolution_spec(s@),
    {
        proof {
            reveal_strlit("UHD");
        }
        let uhd = String::from_str("UHD");
        assert(uhd@ =~= seq!['U', 'H', 'D']);
        let owned = String::from_str(s);
        if owned == uhd {
            return Ok(Resolution::Uhd);
        }
        let len = s.unicode_len();
        match find_char(s, 'x') {
            None => Err(OptionParseError::InvalidResolution),
            Some(p) => {
                let w = parse_u16(s.substring_char(0, p));
                let h = parse_u16(s.substring_char(p + 1, len));
                match w {
                    Some(w) => match h {
                        Some(h) => Ok(Resolution::Resolution(w, h)),
                        None => Err(OptionParseError::InvalidNumber),
                    },
                    None => Err(OptionParseError::InvalidNumber),
                }
            },
        }
    }
}

/// File type requested from the archive.
#[derive(Debug, Default, Clone, Copy, PartialEq, Eq, Structural)]
pub enum Extension {
    #[default]
    Jpg,
    Webp,
}

/// The extension token as the archive expects it.
pub open spec fn extension_token(e: Extension) -> Seq<char> {
    match e {
        Extension::Jpg => seq!['j', 'p', 'g'],
        Extension::Webp => seq!['w', 'e', 'b', 'p'],
    }
}

impl Extension {
    /// The extension token: `jpg` or `webp`.
    pub fn to_string(&self) -> (r: String)
        ensures
            r@ == extension_token(*self),
    {
        proof {
            reveal_strlit("jpg");
            reveal_strlit("webp");
        }
        match self {
            Extension::Jpg => String::from_str("jpg"),
            Extension::Webp => String::from_str("webp"),
        }
    }

    /// Parses an extension token.
    pub fn from_str(s: &str) -> (r: Result<Extension, OptionParseError>)
        ensures
            s@ == extension_token(Extension::Jpg) ==> r == Ok::<Extension, OptionParseError>(
                Extension::Jpg,
            ),
            s@ == extension_token(Extension::Webp) ==> r == Ok::<Extension, OptionParseError>(
                Extension::Webp,
            ),
            s@ != extension_token(Extension::Jpg) && s@ != extension_token(Extension::Webp)
                ==> r == Err::<Extension, OptionParseError>(OptionParseError::InvalidExtension),
    {
        let owned = String::from_str(s);
        let jpg = Extension::Jpg.to_string();
        let webp = Extension::Webp.to_string();
        if owned == jpg {
            Ok(Extension::Jpg)
        } else if owned == webp {
            Ok(Extension::Webp)
        } else {
            Err(OptionParseError::InvalidExtension)
        }
    }
}

/// Which items `reset` removes.
#[derive(Debug, Clone, Copy, PartialEq, Eq, Structural)]
pub enum ResetItem {
    /// Remove downloaded images
    Images,
    /// Reset local state
    State,
}

/// A column of the image listing.
#[derive(Debug, Clone, Copy, PartialEq, Eq, Structural)]
pub enum ImagePart {
    Path,
    FullPath,
    Title,
    Url,
    Time,
    Current,
    Copyright,
}

/// Every column, in the order the full listing prints them.
pub open spec fn all_parts() -> Seq<ImagePart> {
    seq![
        ImagePart::Current,
        ImagePart::Time,
        ImagePart::FullPath,
        ImagePart::Path,
        ImagePart::Title,
        ImagePart::Url,
        ImagePart::Copyright,
    ]
}

impl ImagePart {
    /// Every column, in the order the full listing prints them.
    pub fn all() -> (r: Vec<ImagePart>)
        ensures
            r@ == all_parts(),
    {
        let r = vec![
            ImagePart::Current,
            ImagePart::Time,
            ImagePart::FullPath,
            ImagePart::Path,
            ImagePart::Title,
            ImagePart::Url,
            ImagePart::Copyright,
        ];
        assert(r@ =~= all_parts());
        r
    }
}

/// How a relative time is written.
#[derive(Debug, Default, Clone, Copy, PartialEq, Eq, Structural)]
pub enum RelativeFlag {
    #[default]
    Long,
    Raw,
    Short,
}

/// Which configuration `config` prints.
#[derive(Debug, Default, Clone, Copy, PartialEq, Eq, Structural)]
pub enum ShowConfigKind {
    Raw,
    #[default]
    Resolved,
}

/// Arguments of the `config` command.
#[derive(Debug, Clone, Copy, PartialEq, Eq, Structural)]
pub struct ShowConfigArgs {
    pub kind: ShowConfigKind,
    pub compact: bool,
    pub path: bool,
}

/// The mutually exclusive flags of the `show` command.
#[derive(Debug, Clone, Copy, PartialEq, Eq, Structural)]
pub struct ShowKindArg {
    pub current: bool,
    pub random: bool,
    pub latest: bool,
}

/// Which image `show` prints.
#[derive(Debug, Clone, Copy, PartialEq, Eq, Structural)]
pub enum ShowKind {
    Current,
    Random { update: bool },
    Latest,
}

impl ShowKind {
    /// The kind that the flags select; `current` wins over `latest`, which
    /// wins over `random`.
    pub fn from_arg(kind: ShowKindArg, update: bool) -> (r: ShowKind)
        requires
            kind.current || kind.random || kind.latest,
        ensures
            kind.current ==> r == ShowKind::Current,
            !kind.current && kind.latest ==> r == ShowKind::Latest,
            !kind.current && !kind.latest ==> r == (ShowKind::Random { update }),
    {
        if kind.current {
            ShowKind::Current
        } else if kind.latest {
            ShowKind::Latest
        } else {
            ShowKind::Random { update }
        }
    }
}

} // verus!
