use vstd::prelude::*;

verus! {

/// How the node seals blocks.
#[derive(Clone, Copy, Debug, PartialEq, Eq, Structural)]
pub enum Consensus {
    /// Seal a block every given number of milliseconds.
    ManualSeal(u64),
    /// Seal a block as soon as a transaction arrives.
    InstantSeal,
    /// No sealing (written `none`).
    Disabled,
}

pub uninterp spec fn lower_of(s: Seq<char>) -> Seq<char>;

/// Relies on `str::to_lowercase`: the lowercase mapping of each character,
/// which depends on the characters alone.
#[verifier::external_body]
fn lowercase(s: &str) -> (r: String)
    ensures
        r@ == lower_of(s@),
{
    s.to_lowercase()
}

/// Relies on `str::strip_prefix`: the rest of `s` after `prefix`, where `s`
/// starts with it.
#[verifier::external_body]
fn strip_prefix<'a>(s: &'a str, prefix: &str) -> (r: Option<&'a str>)
    ensures
        r is Some <==> prefix@.is_prefix_of(s@),
        r matches Some(rest) ==> rest@ == s@.subrange(prefix@.len() as int, s@.len() as int),
{
    s.strip_prefix(prefix)
}

pub open spec fn is_decimal_digit(c: char) -> bool {
    '0' <= c <= '9'
}

/// The value of a string of decimal digit characters.
pub open spec fn digits_value(d: Seq<char>) -> nat
    decreases d.len(),
{
    if d.len() == 0 {
        0
    } else {
        digits_value(d.drop_last()) * 10 + (d.last() as u32 - 48) as nat
    }
}

/// The `u64` that `s` writes in decimal, with an optional leading `+`.
pub open spec fn u64_text_value(s: Seq<char>) -> Option<u64> {
    let d = if s.len() > 0 && s[0] == '+' {
        s.drop_first()
    } else {
        s
    };
    if d.len() > 0 && (forall|i: int| 0 <= i < d.len() ==> is_decimal_digit(#[trigger] d[i]))
        && digits_value(d) <= u64::MAX {
        Some(digits_value(d) as u64)
    } else {
        None
    }
}

/// Relies on `u64::from_str` (through `str::parse`): decimal digits with an
/// optional `+`, whose value fits in a `u64`.
#[verifier::external_body]
fn parse_u64(s: &str) -> (r: Option<u64>)
    ensures
        r == u64_text_value(s@),
{
    s.parse::<u64>().ok()
}

/// What `Consensus::from_str` makes of `s`, whose lowercase form is `lowered`.
pub open spec fn consensus_spec(s: Seq<char>, lowered: Seq<char>) -> Option<Consensus> {
    if s == "instant-seal"@ {
        Some(Consensus::InstantSeal)
    } else if "manual-seal-"@.is_prefix_of(s) {
        match u64_text_value(s.subrange("manual-seal-"@.len() as int, s.len() as int)) {
            Some(n) => Some(Consensus::ManualSeal(n)),
            None => None,
        }
    } else if lowered == "none"@ {
        Some(Consensus::Disabled)
    } else {
        None
    }
}

pub open spec fn consensus_error(s: Seq<char>) -> Seq<char> {
    if "manual-seal-"@.is_prefix_of(s) && s != "instant-seal"@ {
        "invalid block time"@
    } else {
        "incorrect consensus identifier"@
    }
}

impl Consensus {
    /// Reads `instant-seal`, `manual-seal-<milliseconds>` or `none` (in any
    /// case).
    pub fn from_str(s: &str) -> (r: Result<Consensus, String>)
        ensures
            match consensus_spec(s@, lower_of(s@)) {
                Some(c) => r == Ok::<Consensus, String>(c),
                None => r matches Err(e) && e@ == consensus_error(s@),
            },
    {
        let lowered = lowercase(s);
        Consensus::from_str_lowered(s, lowered.as_str())
    }

    /// `from_str` given the lowercase form of `s`.
    pub fn from_str_lowered(s: &str, lowered: &str) -> (r: Result<Consensus, String>)
        ensures
            match consensus_spec(s@, lowered@) {
                Some(c) => r == Ok::<Consensus, String>(c),
                None => r matches Err(e) && e@ == consensus_error(s@),
            },
    {
        if s.to_owned() == "instant-seal".to_owned() {
            return Ok(Consensus::InstantSeal);
        }
        match strip_prefix(s, "manual-seal-") {
            Some(block_time) => match parse_u64(block_time) {
                Some(n) => Ok(Consensus::ManualSeal(n)),
                None => Err("invalid block time".to_owned()),
            },
            None => {
                if lowered.to_owned() == "none".to_owned() {
                    Ok(Consensus::Disabled)
                } else {
                    Err("incorrect consensus identifier".to_owned())
                }
            },
        }
    }
}

} // verus!
