use crate::state::{with_account, AccountInfo, State, StateView};
use vstd::prelude::*;

verus! {

/// The bytes of `balances`.
pub open spec fn balances_name_spec() -> Seq<u8> {
    seq![98u8, 97u8, 108u8, 97u8, 110u8, 99u8, 101u8, 115u8]
}

fn balances_name() -> (r: Vec<u8>)
    ensures
        r@ == balances_name_spec(),
{
    vec![98u8, 97u8, 108u8, 97u8, 110u8, 99u8, 101u8, 115u8]
}

/// The bytes of `sudo`.
pub open spec fn sudo_name_spec() -> Seq<u8> {
    seq![115u8, 117u8, 100u8, 111u8]
}

fn sudo_name() -> (r: Vec<u8>)
    ensures
        r@ == sudo_name_spec(),
{
    vec![115u8, 117u8, 100u8, 111u8]
}

/// The bytes of `{"balances":[`.
pub open spec fn balances_open_spec() -> Seq<u8> {
    seq![123u8, 34u8, 98u8, 97u8, 108u8, 97u8, 110u8, 99u8, 101u8, 115u8, 34u8, 58u8, 91u8]
}

fn balances_open() -> (r: Vec<u8>)
    ensures
        r@ == balances_open_spec(),
{
    vec![123u8, 34u8, 98u8, 97u8, 108u8, 97u8, 110u8, 99u8, 101u8, 115u8, 34u8, 58u8, 91u8]
}

/// The bytes of `]}`.
pub open spec fn balances_close_spec() -> Seq<u8> {
    seq![93u8, 125u8]
}

fn balances_close() -> (r: Vec<u8>)
    ensures
        r@ == balances_close_spec(),
{
    vec![93u8, 125u8]
}

/// The bytes of `{"key":`.
pub open spec fn sudo_open_spec() -> Seq<u8> {
    seq![123u8, 34u8, 107u8, 101u8, 121u8, 34u8, 58u8]
}

fn sudo_open() -> (r: Vec<u8>)
    ensures
        r@ == sudo_open_spec(),
{
    vec![123u8, 34u8, 107u8, 101u8, 121u8, 34u8, 58u8]
}

/// The bytes of `null`.
pub open spec fn null_word_spec() -> Seq<u8> {
    seq![110u8, 117u8, 108u8, 108u8]
}

fn null_word() -> (r: Vec<u8>)
    ensures
        r@ == null_word_spec(),
{
    vec![110u8, 117u8, 108u8, 108u8]
}

/// The bytes of `{"balances":`.
pub open spec fn patch_open_spec() -> Seq<u8> {
    seq![123u8, 34u8, 98u8, 97u8, 108u8, 97u8, 110u8, 99u8, 101u8, 115u8, 34u8, 58u8]
}

fn patch_open() -> (r: Vec<u8>)
    ensures
        r@ == patch_open_spec(),
{
    vec![123u8, 34u8, 98u8, 97u8, 108u8, 97u8, 110u8, 99u8, 101u8, 115u8, 34u8, 58u8]
}

/// The bytes of `,"sudo":`.
pub open spec fn sudo_member_spec() -> Seq<u8> {
    seq![44u8, 34u8, 115u8, 117u8, 100u8, 111u8, 34u8, 58u8]
}

fn sudo_member() -> (r: Vec<u8>)
    ensures
        r@ == sudo_member_spec(),
{
    vec![44u8, 34u8, 115u8, 117u8, 100u8, 111u8, 34u8, 58u8]
}

pub open spec fn is_digit(c: u8) -> bool {
    48 <= c <= 57
}

/// The first position at or after `pos` that does not hold a digit.
pub open spec fn digits_end(b: Seq<u8>, pos: int) -> int
    decreases b.len() - pos,
{
    if 0 <= pos < b.len() && is_digit(b[pos]) {
        digits_end(b, pos + 1)
    } else {
        pos
    }
}

/// The value of a string of decimal digits.
pub open spec fn decimal_value(d: Seq<u8>) -> nat
    decreases d.len(),
{
    if d.len() == 0 {
        0
    } else {
        decimal_value(d.drop_last()) * 10 + (d.last() - 48) as nat
    }
}

/// A decimal number at `pos` of at most `max`: its value and the position
/// after it.
pub open spec fn number_at(b: Seq<u8>, pos: int, max: nat) -> Option<(nat, int)> {
    let end = digits_end(b, pos);
    if end == pos || decimal_value(b.subrange(pos, end)) > max {
        None
    } else {
        Some((decimal_value(b.subrange(pos, end)), end))
    }
}

/// The position after `lit` where `b` holds it at `pos`.
pub open spec fn expect_at(b: Seq<u8>, pos: int, lit: Seq<u8>) -> Option<int> {
    if 0 <= pos && pos + lit.len() <= b.len() && b.subrange(pos, pos + lit.len()) == lit {
        Some(pos + lit.len())
    } else {
        None
    }
}

proof fn lemma_decimal_grows(d: Seq<u8>, k: int)
    requires
        0 <= k <= d.len(),
        forall|i: int| 0 <= i < d.len() ==> is_digit(#[trigger] d[i]),
    ensures
        decimal_value(d.subrange(0, k)) <= decimal_value(d),
    decreases d.len() - k,
{
    if k < d.len() {
        lemma_decimal_grows(d.drop_last(), k);
        assert(d.drop_last().subrange(0, k) =~= d.subrange(0, k));
    } else {
        assert(d.subrange(0, k) =~= d);
    }
}

proof fn lemma_digits_end_bound(b: Seq<u8>, pos: int)
    requires
        0 <= pos <= b.len(),
    ensures
        pos <= digits_end(b, pos) <= b.len(),
        forall|i: int| pos <= i < digits_end(b, pos) ==> is_digit(#[trigger] b[i]),
    decreases b.len() - pos,
{
    if pos < b.len() && is_digit(b[pos]) {
        lemma_digits_end_bound(b, pos + 1);
    }
}

/// Reads a decimal number of at most `max` at `pos`.
fn read_number(b: &Vec<u8>, pos: usize, max: u128) -> (r: Option<(u128, usize)>)
    requires
        pos <= b@.len(),
    ensures
        match number_at(b@, pos as int, max as nat) {
            Some((v, e)) => r matches Some(x) && x.0 == v && x.1 == e,
            None => r is None,
        },
        r matches Some(x) ==> pos < x.1 <= b@.len(),
{
    let ghost end = digits_end(b@, pos as int);
    proof {
        lemma_digits_end_bound(b@, pos as int);
    }
    let mut i: usize = pos;
    let mut acc: u128 = 0;
    while i < b.len() && 48 <= b[i] && b[i] <= 57
        invariant
            pos <= i <= end <= b@.len(),
            digits_end(b@, i as int) == end,
            end == digits_end(b@, pos as int),
            forall|k: int| pos <= k < end ==> is_digit(#[trigger] b@[k]),
            acc as nat == decimal_value(b@.subrange(pos as int, i as int)),
            acc <= max,
        decreases b.len() - i,
    {
        let d = (b[i] - 48) as u128;
        proof {
            lemma_digits_end_bound(b@, i + 1);
            assert(b@.subrange(pos as int, i + 1).drop_last() =~= b@.subrange(pos as int, i as int));
        }
        if d > max || acc > (max - d) / 10 {
            proof {
                let whole = b@.subrange(pos as int, end);
                assert(forall|k: int| 0 <= k < whole.len() ==> is_digit(#[trigger] whole[k]));
                lemma_decimal_grows(whole, i + 1 - pos);
                assert(whole.subrange(0, i + 1 - pos) =~= b@.subrange(pos as int, i + 1));
                assert(acc * 10 + d > max) by (nonlinear_arith)
                    requires d > max || acc > (max - d) / 10, acc >= 0, d >= 0;
                assert(decimal_value(b@.subrange(pos as int, i + 1)) == acc * 10 + d);
                assert(decimal_value(whole) > max);
            }
            return None;
        }
        acc = acc * 10 + d;
        i = i + 1;
    }
    if i == pos {
        return None;
    }
    Some((acc, i))
}

/// Checks that `b` holds `lit` at `pos`.
fn expect_lit(b: &Vec<u8>, pos: usize, lit: &Vec<u8>) -> (r: Option<usize>)
    ensures
        match expect_at(b@, pos as int, lit@) {
            Some(e) => r matches Some(x) && x == e,
            None => r is None,
        },
        r matches Some(x) ==> x <= b@.len(),
{
    if pos > b.len() || lit.len() > b.len() - pos {
        return None;
    }
    let n = b.len();
    let mut i: usize = 0;
    while i < lit.len()
        invariant
            n == b@.len(),
            pos + lit@.len() <= n,
            0 <= i <= lit@.len(),
            forall|k: int| 0 <= k < i ==> b@[pos + k] == lit@[k],
        decreases lit.len() - i,
    {
        if b[pos + i] != lit[i] {
            proof {
                assert(b@.subrange(pos as int, pos + lit@.len())[i as int] != lit@[i as int]);
            }
            return None;
        }
        i = i + 1;
    }
    proof {
        assert(b@.subrange(pos as int, pos + lit@.len()) =~= lit@);
    }
    Some(pos + lit.len())
}

/// The genesis patch: the initial balances and the privileged key.
pub struct GenesisConfig {
    pub balances: Vec<(u64, u128)>,
    pub sudo_key: Option<u64>,
}

pub struct GenesisModel {
    pub balances: Seq<(u64, u128)>,
    pub sudo_key: Option<u64>,
}

impl View for GenesisConfig {
    type V = GenesisModel;

    open spec fn view(&self) -> GenesisModel {
        GenesisModel { balances: self.balances@, sudo_key: self.sudo_key }
    }
}

/// Why a genesis patch was refused.
#[derive(Clone, Copy, Debug, PartialEq, Eq, Structural)]
pub enum GenesisError {
    /// The bytes do not follow the patch grammar.
    Malformed,
    /// The patch names a module that the runtime does not hold.
    UnknownModule,
    /// The patch names one module twice.
    DuplicateModule,
    /// The balances name one account twice.
    DuplicateAccount,
    /// An initial balance is under the existential deposit.
    BelowMinimum,
}

pub open spec fn byte_is(b: Seq<u8>, pos: int, c: u8) -> bool {
    0 <= pos < b.len() && b[pos] == c
}

/// `[account,balance]` at `pos`.
pub open spec fn pair_at(b: Seq<u8>, pos: int) -> Option<((u64, u128), int)> {
    if !byte_is(b, pos, 91) {
        None
    } else {
        match number_at(b, pos + 1, u64::MAX as nat) {
            None => None,
            Some((a, p)) => if !byte_is(b, p, 44) {
                None
            } else {
                match number_at(b, p + 1, u128::MAX as nat) {
                    None => None,
                    Some((v, q)) => if !byte_is(b, q, 93) {
                        None
                    } else {
                        Some(((a as u64, v as u128), q + 1))
                    },
                }
            },
        }
    }
}

/// A non-empty comma-separated list of pairs from `pos`, after `acc`.
pub open spec fn pairs_from(b: Seq<u8>, pos: int, acc: Seq<(u64, u128)>) -> Option<
    (Seq<(u64, u128)>, int),
>
    decreases b.len() - pos,
{
    match pair_at(b, pos) {
        None => None,
        Some((p, q)) => if q <= pos {
            None
        } else if byte_is(b, q, 44) {
            pairs_from(b, q + 1, acc.push(p))
        } else {
            Some((acc.push(p), q))
        },
    }
}

/// `{"balances":[...]}` at `pos`.
pub open spec fn balances_body(b: Seq<u8>, pos: int) -> Option<(Seq<(u64, u128)>, int)> {
    match expect_at(b, pos, balances_open_spec()) {
        None => None,
        Some(p) => {
            let list = if byte_is(b, p, 93) {
                Some((Seq::<(u64, u128)>::empty(), p))
            } else {
                pairs_from(b, p, Seq::empty())
            };
            match list {
                None => None,
                Some((l, q)) => match expect_at(b, q, balances_close_spec()) {
                    None => None,
                    Some(e) => Some((l, e)),
                },
            }
        },
    }
}

/// `{"key":null}` or `{"key":account}` at `pos`.
pub open spec fn sudo_body(b: Seq<u8>, pos: int) -> Option<(Option<u64>, int)> {
    match expect_at(b, pos, sudo_open_spec()) {
        None => None,
        Some(p) => {
            let key = match expect_at(b, p, null_word_spec()) {
                Some(q) => Some((None::<u64>, q)),
                None => match number_at(b, p, u64::MAX as nat) {
                    Some((v, q)) => Some((Some(v as u64), q)),
                    None => None,
                },
            };
            match key {
                None => None,
                Some((k, q)) => if byte_is(b, q, 125) {
                    Some((k, q + 1))
                } else {
                    None
                },
            }
        },
    }
}

/// The first position at or after `pos` that holds a quote, or the end.
pub open spec fn quote_end(b: Seq<u8>, pos: int) -> int
    decreases b.len() - pos,
{
    if 0 <= pos < b.len() && b[pos] != 34 {
        quote_end(b, pos + 1)
    } else {
        pos
    }
}

/// One module's entry at `pos`: its new patch and the position after it.
#[verifier::opaque]
pub open spec fn member_at(
    b: Seq<u8>,
    pos: int,
    acc: GenesisModel,
    seen_balances: bool,
    seen_sudo: bool,
) -> Result<(GenesisModel, int, bool, bool), GenesisError> {
    let end = quote_end(b, pos + 1);
    if !byte_is(b, pos, 34) || !byte_is(b, end, 34) || !byte_is(b, end + 1, 58) {
        Err(GenesisError::Malformed)
    } else {
        let name = b.subrange(pos + 1, end);
        if name == balances_name_spec() {
            if seen_balances {
                Err(GenesisError::DuplicateModule)
            } else {
                match balances_body(b, end + 2) {
                    None => Err(GenesisError::Malformed),
                    Some((l, q)) => Ok((GenesisModel { balances: l, ..acc }, q, true, seen_sudo)),
                }
            }
        } else if name == sudo_name_spec() {
            if seen_sudo {
                Err(GenesisError::DuplicateModule)
            } else {
                match sudo_body(b, end + 2) {
                    None => Err(GenesisError::Malformed),
                    Some((k, q)) => Ok((GenesisModel { sudo_key: k, ..acc }, q, seen_balances, true)),
                }
            }
        } else {
            Err(GenesisError::UnknownModule)
        }
    }
}

/// The module entries from `pos` to the closing brace that ends the patch.
pub open spec fn members_from(
    b: Seq<u8>,
    pos: int,
    acc: GenesisModel,
    seen_balances: bool,
    seen_sudo: bool,
) -> Result<GenesisModel, GenesisError>
    decreases b.len() - pos,
{
    match member_at(b, pos, acc, seen_balances, seen_sudo) {
        Err(e) => Err(e),
        Ok((m, q, sb, ss)) => if q <= pos {
            Err(GenesisError::Malformed)
        } else if byte_is(b, q, 44) {
            members_from(b, q + 1, m, sb, ss)
        } else if byte_is(b, q, 125) && q + 1 == b.len() {
            Ok(m)
        } else {
            Err(GenesisError::Malformed)
        },
    }
}

pub open spec fn empty_patch() -> GenesisModel {
    GenesisModel { balances: Seq::empty(), sudo_key: None }
}

/// The patch that `b` encodes: a JSON object whose members name modules,
/// each at most once; a module left out keeps its empty state.
pub open spec fn parse_patch(b: Seq<u8>) -> Result<GenesisModel, GenesisError> {
    if !byte_is(b, 0, 123) {
        Err(GenesisError::Malformed)
    } else if byte_is(b, 1, 125) && b.len() == 2 {
        Ok(empty_patch())
    } else {
        members_from(b, 1, empty_patch(), false, false)
    }
}

fn byte_at_is(b: &Vec<u8>, pos: usize, c: u8) -> (r: bool)
    ensures
        r == byte_is(b@, pos as int, c),
{
    pos < b.len() && b[pos] == c
}

fn read_pair(b: &Vec<u8>, pos: usize) -> (r: Option<((u64, u128), usize)>)
    requires
        pos <= b@.len(),
    ensures
        match pair_at(b@, pos as int) {
            Some((p, e)) => r matches Some(x) && x.0 == p && x.1 == e,
            None => r is None,
        },
        r matches Some(x) ==> x.1 <= b@.len(),
{
    // positions below stay within the length, which fits in a usize
    let len = b.len();
    if !byte_at_is(b, pos, 91) {
        return None;
    }
    let (a, p) = match read_number(b, pos + 1, u64::MAX as u128) {
        Some(x) => x,
        None => return None,
    };
    if !byte_at_is(b, p, 44) {
        return None;
    }
    let (v, q) = match read_number(b, p + 1, u128::MAX) {
        Some(x) => x,
        None => return None,
    };
    if !byte_at_is(b, q, 93) {
        return None;
    }
    Some(((a as u64, v), q + 1))
}

fn read_pairs(b: &Vec<u8>, start: usize) -> (r: Option<(Vec<(u64, u128)>, usize)>)
    requires
        start <= b@.len(),
    ensures
        match pairs_from(b@, start as int, Seq::empty()) {
            Some((l, e)) => r matches Some(x) && x.0@ == l && x.1 == e,
            None => r is None,
        },
        r matches Some(x) ==> x.1 <= b@.len(),
{
    let n = b.len();
    let mut acc: Vec<(u64, u128)> = Vec::new();
    let mut pos = start;
    loop
        invariant
            n == b@.len(),
            pos <= b@.len(),
            pairs_from(b@, start as int, Seq::empty()) == pairs_from(b@, pos as int, acc@),
        decreases b@.len() - pos,
    {
        match read_pair(b, pos) {
            None => {
                return None;
            },
            Some((p, q)) => {
                if q <= pos {
                    return None;
                }
                acc.push(p);
                if byte_at_is(b, q, 44) {
                    pos = q + 1;
                } else {
                    return Some((acc, q));
                }
            },
        }
    }
}

fn read_balances(b: &Vec<u8>, pos: usize) -> (r: Option<(Vec<(u64, u128)>, usize)>)
    ensures
        match balances_body(b@, pos as int) {
            Some((l, e)) => r matches Some(x) && x.0@ == l && x.1 == e,
            None => r is None,
        },
        r matches Some(x) ==> x.1 <= b@.len(),
{
    let p = match expect_lit(b, pos, &balances_open()) {
        Some(p) => p,
        None => return None,
    };
    let (l, q) = if byte_at_is(b, p, 93) {
        (Vec::new(), p)
    } else {
        match read_pairs(b, p) {
            Some(x) => x,
            None => return None,
        }
    };
    match expect_lit(b, q, &balances_close()) {
        Some(e) => Some((l, e)),
        None => None,
    }
}

fn read_sudo(b: &Vec<u8>, pos: usize) -> (r: Option<(Option<u64>, usize)>)
    ensures
        match sudo_body(b@, pos as int) {
            Some((k, e)) => r matches Some(x) && x.0 == k && x.1 == e,
            None => r is None,
        },
        r matches Some(x) ==> x.1 <= b@.len(),
{
    // positions below stay within the length, which fits in a usize
    let len = b.len();
    let p = match expect_lit(b, pos, &sudo_open()) {
        Some(p) => p,
        None => return None,
    };
    let (k, q) = match expect_lit(b, p, &null_word()) {
        Some(q) => (None, q),
        None => match read_number(b, p, u64::MAX as u128) {
            Some((v, q)) => (Some(v as u64), q),
            None => return None,
        },
    };
    if byte_at_is(b, q, 125) {
        Some((k, q + 1))
    } else {
        None
    }
}

proof fn lemma_quote_end_bound(b: Seq<u8>, pos: int)
    requires
        0 <= pos <= b.len(),
    ensures
        pos <= quote_end(b, pos) <= b.len(),
        forall|i: int| pos <= i < quote_end(b, pos) ==> #[trigger] b[i] != 34,
    decreases b.len() - pos,
{
    if pos < b.len() && b[pos] != 34 {
        lemma_quote_end_bound(b, pos + 1);
    }
}

fn find_quote(b: &Vec<u8>, pos: usize) -> (r: usize)
    requires
        pos <= b@.len(),
    ensures
        r == quote_end(b@, pos as int),
{
    let mut i = pos;
    while i < b.len() && b[i] != 34
        invariant
            pos <= i <= b@.len(),
            quote_end(b@, pos as int) == quote_end(b@, i as int),
        decreases b.len() - i,
    {
        i = i + 1;
    }
    i
}

fn name_is(b: &Vec<u8>, start: usize, end: usize, name: &Vec<u8>) -> (r: bool)
    requires
        start <= end <= b@.len(),
    ensures
        r == (b@.subrange(start as int, end as int) == name@),
{
    if end - start != name.len() {
        return false;
    }
    match expect_lit(b, start, name) {
        Some(_) => true,
        None => false,
    }
}

/// Reads one module's entry at `pos` into `acc`.
fn read_member(
    b: &Vec<u8>,
    pos: usize,
    acc: &mut GenesisConfig,
    seen_balances: &mut bool,
    seen_sudo: &mut bool,
) -> (r: Result<usize, GenesisError>)
    requires
        pos <= b@.len(),
    ensures
        match member_at(b@, pos as int, old(acc)@, *old(seen_balances), *old(seen_sudo)) {
            Ok((m, q, sb, ss)) => r matches Ok(x) && x == q && final(acc)@ == m
                && *final(seen_balances) == sb && *final(seen_sudo) == ss,
            Err(e) => r == Err::<usize, GenesisError>(e),
        },
        r matches Ok(x) ==> x <= b@.len(),
{
    // positions below stay within the length, which fits in a usize
    let len = b.len();
    reveal(member_at);
    if !byte_at_is(b, pos, 34) {
        return Err(GenesisError::Malformed);
    }
    let end = find_quote(b, pos + 1);
    proof {
        lemma_quote_end_bound(b@, pos + 1);
    }
    if !byte_at_is(b, end, 34) || !byte_at_is(b, end + 1, 58) {
        return Err(GenesisError::Malformed);
    }
    if name_is(b, pos + 1, end, &balances_name()) {
        if *seen_balances {
            return Err(GenesisError::DuplicateModule);
        }
        match read_balances(b, end + 2) {
            None => Err(GenesisError::Malformed),
            Some((l, e)) => {
                acc.balances = l;
                *seen_balances = true;
                Ok(e)
            },
        }
    } else if name_is(b, pos + 1, end, &sudo_name()) {
        if *seen_sudo {
            return Err(GenesisError::DuplicateModule);
        }
        match read_sudo(b, end + 2) {
            None => Err(GenesisError::Malformed),
            Some((k, e)) => {
                acc.sudo_key = k;
                *seen_sudo = true;
                Ok(e)
            },
        }
    } else {
        Err(GenesisError::UnknownModule)
    }
}

/// Reads the patch that `patch` encodes.
pub fn decode_patch(patch: &Vec<u8>) -> (r: Result<GenesisConfig, GenesisError>)
    ensures
        match parse_patch(patch@) {
            Ok(m) => r matches Ok(g) && g@ == m,
            Err(e) => r == Err::<GenesisConfig, GenesisError>(e),
        },
{
    let b = patch;
    let n = b.len();
    if !byte_at_is(b, 0, 123) {
        return Err(GenesisError::Malformed);
    }
    if byte_at_is(b, 1, 125) && n == 2 {
        let g = GenesisConfig { balances: Vec::new(), sudo_key: None };
        proof {
            assert(g@.balances =~= empty_patch().balances);
        }
        return Ok(g);
    }
    let mut acc = GenesisConfig { balances: Vec::new(), sudo_key: None };
    let mut seen_balances = false;
    let mut seen_sudo = false;
    let mut pos: usize = 1;
    proof {
        assert(acc@.balances =~= empty_patch().balances);
    }
    loop
        invariant
            b == patch,
            n == b@.len(),
            1 <= pos <= b@.len(),
            parse_patch(b@) == members_from(b@, pos as int, acc@, seen_balances, seen_sudo),
        decreases b@.len() - pos,
    {
        let ghost before = (acc@, seen_balances, seen_sudo);
        proof {
            assert(members_from(b@, pos as int, before.0, before.1, before.2) == match member_at(
                b@,
                pos as int,
                before.0,
                before.1,
                before.2,
            ) {
                Err(e) => Err(e),
                Ok((m, q, sb, ss)) => if q <= pos {
                    Err(GenesisError::Malformed)
                } else if byte_is(b@, q, 44) {
                    members_from(b@, q + 1, m, sb, ss)
                } else if byte_is(b@, q, 125) && q + 1 == b@.len() {
                    Ok(m)
                } else {
                    Err(GenesisError::Malformed)
                },
            });
        }
        let q = match read_member(b, pos, &mut acc, &mut seen_balances, &mut seen_sudo) {
            Ok(q) => q,
            Err(e) => {
                return Err(e);
            },
        };
        if q <= pos {
            return Err(GenesisError::Malformed);
        }
        if byte_at_is(b, q, 44) {
            pos = q + 1;
        } else if byte_at_is(b, q, 125) && q + 1 == n {
            return Ok(acc);
        } else {
            return Err(GenesisError::Malformed);
        }
    }
}

/// The well-known development accounts.
pub const ALICE: u64 = 1;
pub const BOB: u64 = 2;
pub const CHARLIE: u64 = 3;
pub const DAVE: u64 = 4;
pub const EVE: u64 = 5;
pub const FERDIE: u64 = 6;

/// The least balance an account must keep.
pub const EXISTENTIAL_DEPOSIT: u128 = 1;

/// The ledger that `balances` describes, built left to right.
pub open spec fn balances_state(balances: Seq<(u64, u128)>, ed: u128) -> Result<
    Map<u64, AccountInfo>,
    GenesisError,
>
    decreases balances.len(),
{
    if balances.len() == 0 {
        Ok(Map::empty())
    } else {
        match balances_state(balances.drop_last(), ed) {
            Err(e) => Err(e),
            Ok(m) => {
                let (who, amount) = balances.last();
                if m.contains_key(who) {
                    Err(GenesisError::DuplicateAccount)
                } else if amount < ed {
                    Err(GenesisError::BelowMinimum)
                } else {
                    Ok(m.insert(who, AccountInfo { nonce: 0, balance: amount }))
                }
            },
        }
    }
}

/// The state that the patch `g` writes into empty state.
pub open spec fn genesis_state(g: GenesisModel, ed: u128) -> Result<StateView, GenesisError> {
    match balances_state(g.balances, ed) {
        Err(e) => Err(e),
        Ok(m) => Ok(StateView { accounts: m, something: None, sudo_key: g.sudo_key, now: 0 }),
    }
}

/// Space, tab, line feed or carriage return.
pub open spec fn is_json_space(c: u8) -> bool {
    c == 32 || c == 9 || c == 10 || c == 13
}

/// A digit or an ASCII letter: a byte of a number or of `null`.
pub open spec fn is_word_byte(c: u8) -> bool {
    (48 <= c <= 57) || (65 <= c <= 90) || (97 <= c <= 122)
}

/// The first byte at or after `i` that is not whitespace is a word byte.
pub open spec fn word_follows(b: Seq<u8>, i: int) -> bool
    decreases b.len() - i,
{
    if i < 0 || i >= b.len() {
        false
    } else if is_json_space(b[i]) {
        word_follows(b, i + 1)
    } else {
        is_word_byte(b[i])
    }
}

/// `b` from `i` on without its insignificant whitespace: that outside quoted
/// names, save where it separates two words, which it must keep apart.
/// `in_name` tells whether position `i` lies between quotes, `after_word`
/// whether the last byte kept ends a word.
pub open spec fn compact_from(b: Seq<u8>, i: int, in_name: bool, after_word: bool) -> Seq<u8>
    decreases b.len() - i,
{
    if i < 0 || i >= b.len() {
        Seq::empty()
    } else if b[i] == 34 {
        seq![34u8] + compact_from(b, i + 1, !in_name, false)
    } else if in_name {
        seq![b[i]] + compact_from(b, i + 1, true, false)
    } else if is_json_space(b[i]) {
        if after_word && word_follows(b, i + 1) {
            seq![b[i]] + compact_from(b, i + 1, false, false)
        } else {
            compact_from(b, i + 1, false, after_word)
        }
    } else {
        seq![b[i]] + compact_from(b, i + 1, false, is_word_byte(b[i]))
    }
}

/// `b` without its insignificant whitespace.
pub open spec fn compact(b: Seq<u8>) -> Seq<u8> {
    compact_from(b, 0, false, false)
}

fn is_space_byte(c: u8) -> (r: bool)
    ensures
        r == is_json_space(c),
{
    c == 32 || c == 9 || c == 10 || c == 13
}

fn is_word(c: u8) -> (r: bool)
    ensures
        r == is_word_byte(c),
{
    (48 <= c && c <= 57) || (65 <= c && c <= 90) || (97 <= c && c <= 122)
}

fn word_follows_at(b: &Vec<u8>, start: usize) -> (r: bool)
    requires
        start <= b@.len(),
    ensures
        r == word_follows(b@, start as int),
{
    let mut i = start;
    while i < b.len() && is_space_byte(b[i])
        invariant
            start <= i <= b@.len(),
            word_follows(b@, start as int) == word_follows(b@, i as int),
        decreases b.len() - i,
    {
        i = i + 1;
    }
    i < b.len() && is_word(b[i])
}

/// Removes the insignificant whitespace of a patch.
pub fn compact_patch(b: &Vec<u8>) -> (r: Vec<u8>)
    ensures
        r@ == compact(b@),
{
    let mut out: Vec<u8> = Vec::new();
    let mut in_name = false;
    let mut after_word = false;
    let mut i: usize = 0;
    while i < b.len()
        invariant
            0 <= i <= b@.len(),
            out@ + compact_from(b@, i as int, in_name, after_word) == compact(b@),
        decreases b.len() - i,
    {
        let c = b[i];
        let ghost before = out@;
        let ghost was = (in_name, after_word);
        if c == 34 {
            out.push(c);
            in_name = !in_name;
            after_word = false;
        } else if in_name {
            out.push(c);
            after_word = false;
        } else if is_space_byte(c) {
            if after_word && word_follows_at(b, i + 1) {
                out.push(c);
                after_word = false;
            }
        } else {
            out.push(c);
            after_word = is_word(c);
        }
        proof {
            let rest = compact_from(b@, i + 1, in_name, after_word);
            let here = compact_from(b@, i as int, was.0, was.1);
            assert(before + here == compact(b@));
            if out@.len() > before.len() {
                assert(here == seq![c] + rest);
                assert(out@ + rest =~= before + (seq![c] + rest));
            } else {
                assert(here == rest);
                assert(out@ =~= before);
            }
        }
        i = i + 1;
    }
    proof {
        assert(out@ + Seq::<u8>::empty() =~= out@);
    }
    out
}

/// What `build_state` makes of the patch bytes `b`.
pub open spec fn build_state_spec(b: Seq<u8>) -> Result<StateView, GenesisError> {
    match parse_patch(compact(b)) {
        Err(e) => Err(e),
        Ok(g) => genesis_state(g, EXISTENTIAL_DEPOSIT),
    }
}

/// Writes the patch `g` into empty state.
pub fn build_genesis_state(g: &GenesisConfig, ed: u128) -> (r: Result<State, GenesisError>)
    ensures
        match genesis_state(g@, ed) {
            Ok(v) => r matches Ok(st) && st@ == v,
            Err(e) => r matches Err(x) && x == e,
        },
{
    let mut state = State::new();
    let mut i: usize = 0;
    while i < g.balances.len()
        invariant
            0 <= i <= g.balances@.len(),
            balances_state(g.balances@.take(i as int), ed) == Ok::<Map<u64, AccountInfo>, GenesisError>(state@.accounts),
            state@.something is None,
            state@.sudo_key is None,
            state@.now == 0,
        decreases g.balances.len() - i,
    {
        let (who, amount) = g.balances[i];
        proof {
            assert(g.balances@.take(i + 1).drop_last() =~= g.balances@.take(i as int));
            lemma_balances_prefix_error(g.balances@, i + 1, ed);
        }
        if state.accounts.contains_key(&who) {
            return Err(GenesisError::DuplicateAccount);
        }
        if amount < ed {
            return Err(GenesisError::BelowMinimum);
        }
        state.set_account(who, AccountInfo { nonce: 0, balance: amount });
        i = i + 1;
    }
    proof {
        assert(g.balances@.take(i as int) =~= g.balances@);
    }
    state.sudo_key = g.sudo_key;
    Ok(state)
}

/// An error in a prefix of the balances is the error of the whole.
proof fn lemma_balances_prefix_error(bs: Seq<(u64, u128)>, k: int, ed: u128)
    requires
        0 <= k <= bs.len(),
    ensures
        balances_state(bs.take(k), ed) is Err ==> balances_state(bs, ed) == balances_state(
            bs.take(k),
            ed,
        ),
    decreases bs.len() - k,
{
    if k < bs.len() {
        lemma_balances_prefix_error(bs, k + 1, ed);
        assert(bs.take(k + 1).drop_last() =~= bs.take(k));
    } else {
        assert(bs.take(k) =~= bs);
    }
}

/// Builds the genesis state that the patch bytes describe. Nothing is written
/// unless the whole patch is accepted.
pub fn build_state(patch: &Vec<u8>) -> (r: Result<State, GenesisError>)
    ensures
        match build_state_spec(patch@) {
            Ok(v) => r matches Ok(st) && st@ == v,
            Err(e) => r matches Err(x) && x == e,
        },
{
    let c = compact_patch(patch);
    match decode_patch(&c) {
        Err(e) => Err(e),
        Ok(g) => build_genesis_state(&g, EXISTENTIAL_DEPOSIT),
    }
}

/// The decimal digits of `n`, without leading zeros.
pub open spec fn decimal(n: nat) -> Seq<u8>
    decreases n,
{
    if n < 10 {
        seq![(48 + n) as u8]
    } else {
        decimal(n / 10) + seq![(48 + n % 10) as u8]
    }
}

pub open spec fn pair_json(p: (u64, u128)) -> Seq<u8> {
    seq![91u8] + decimal(p.0 as nat) + seq![44u8] + decimal(p.1 as nat) + seq![93u8]
}

pub open spec fn pairs_json(bs: Seq<(u64, u128)>) -> Seq<u8>
    decreases bs.len(),
{
    if bs.len() == 0 {
        Seq::empty()
    } else if bs.len() == 1 {
        pair_json(bs[0])
    } else {
        pairs_json(bs.drop_last()) + seq![44u8] + pair_json(bs.last())
    }
}

pub open spec fn key_json(k: Option<u64>) -> Seq<u8> {
    match k {
        Some(a) => decimal(a as nat),
        None => null_word_spec(),
    }
}

/// The JSON text of the patch `g`.
pub open spec fn patch_json(g: GenesisModel) -> Seq<u8> {
    patch_open_spec() + balances_open_spec() + pairs_json(g.balances) + balances_close_spec()
        + sudo_member_spec() + sudo_open_spec() + key_json(g.sudo_key) + seq![125u8, 125u8]
}

fn push_decimal(out: &mut Vec<u8>, n: u128)
    ensures
        final(out)@ == old(out)@ + decimal(n as nat),
    decreases n,
{
    if n >= 10 {
        push_decimal(out, n / 10);
    }
    out.push((48 + n % 10) as u8);
    proof {
        assert(final(out)@ =~= old(out)@ + decimal(n as nat));
    }
}

fn push_lit(out: &mut Vec<u8>, lit: Vec<u8>)
    ensures
        final(out)@ == old(out)@ + lit@,
{
    let mut l = lit;
    out.append(&mut l);
}

/// The patch `g` as JSON text.
pub fn encode_patch(g: &GenesisConfig) -> (r: Vec<u8>)
    ensures
        r@ == patch_json(g@),
{
    let mut out: Vec<u8> = Vec::new();
    push_lit(&mut out, patch_open());
    push_lit(&mut out, balances_open());
    let ghost head = out@;
    let mut i: usize = 0;
    while i < g.balances.len()
        invariant
            0 <= i <= g.balances@.len(),
            out@ == head + pairs_json(g.balances@.take(i as int)),
        decreases g.balances.len() - i,
    {
        let (who, amount) = g.balances[i];
        let ghost before = out@;
        if i > 0 {
            out.push(44);
        }
        out.push(91);
        push_decimal(&mut out, who as u128);
        out.push(44);
        push_decimal(&mut out, amount);
        out.push(93);
        proof {
            let t = g.balances@.take(i + 1);
            assert(t.drop_last() =~= g.balances@.take(i as int));
            assert(t.last() == (who, amount));
            assert(out@ =~= head + pairs_json(t));
        }
        i = i + 1;
    }
    proof {
        assert(g.balances@.take(i as int) =~= g.balances@);
    }
    push_lit(&mut out, balances_close());
    push_lit(&mut out, sudo_member());
    push_lit(&mut out, sudo_open());
    match g.sudo_key {
        Some(k) => push_decimal(&mut out, k as u128),
        None => push_lit(&mut out, null_word()),
    }
    out.push(125);
    out.push(125);
    proof {
        assert(out@ =~= patch_json(g@));
    }
    out
}

/// The development patch: each well-known account endowed alike, Alice
/// holding the privileged key.
pub open spec fn development_model() -> GenesisModel {
    GenesisModel {
        balances: seq![
            (ALICE, 1000u128),
            (BOB, 1000u128),
            (CHARLIE, 1000u128),
            (DAVE, 1000u128),
            (EVE, 1000u128),
            (FERDIE, 1000u128),
        ],
        sudo_key: Some(ALICE),
    }
}

/// The development genesis patch. Each account is endowed with a thousand
/// times the existential deposit (at least one).
pub fn development_config_genesis() -> (r: GenesisConfig)
    ensures
        r@ == development_model(),
{
    let unit: u128 = if EXISTENTIAL_DEPOSIT > 1 { EXISTENTIAL_DEPOSIT } else { 1 };
    let endowment = unit * 1000;
    let accounts: Vec<u64> = vec![ALICE, BOB, CHARLIE, DAVE, EVE, FERDIE];
    let mut balances: Vec<(u64, u128)> = Vec::new();
    let mut i: usize = 0;
    while i < accounts.len()
        invariant
            accounts@ == seq![ALICE, BOB, CHARLIE, DAVE, EVE, FERDIE],
            endowment == 1000,
            0 <= i <= accounts@.len(),
            balances@.len() == i,
            forall|k: int| 0 <= k < i ==> #[trigger] balances@[k] == (accounts@[k], endowment),
        decreases accounts.len() - i,
    {
        balances.push((accounts[i], endowment));
        i = i + 1;
    }
    let r = GenesisConfig { balances, sudo_key: Some(ALICE) };
    proof {
        assert(r@.balances =~= development_model().balances);
    }
    r
}

/// The bytes of the preset named `id`: the development patch for
/// "development", nothing for any other name.
pub open spec fn preset_spec(id: Seq<char>) -> Option<Seq<u8>> {
    if id == "development"@ {
        Some(patch_json(development_model()))
    } else {
        None
    }
}

/// The serialized patch of a known preset, or `None` for an unknown one.
pub fn get_preset(id: &str) -> (r: Option<Vec<u8>>)
    ensures
        match preset_spec(id@) {
            Some(b) => r matches Some(v) && v@ == b,
            None => r is None,
        },
{
    let name = id.to_owned();
    if name == "development".to_owned() {
        Some(encode_patch(&development_config_genesis()))
    } else {
        None
    }
}

/// The names of the available presets.
pub fn preset_names() -> (r: Vec<String>)
    ensures
        r@.len() == 1,
        r@[0]@ == "development"@,
{
    let mut v: Vec<String> = Vec::new();
    v.push("development".to_owned());
    v
}

/// `b` holds `s` at `pos`.
pub open spec fn holds_at(b: Seq<u8>, pos: int, s: Seq<u8>) -> bool {
    0 <= pos && pos + s.len() <= b.len() && b.subrange(pos, pos + s.len()) == s
}

proof fn lemma_holds_split(b: Seq<u8>, pos: int, s: Seq<u8>, t: Seq<u8>)
    requires
        holds_at(b, pos, s + t),
    ensures
        holds_at(b, pos, s),
        holds_at(b, pos + s.len(), t),
{
    let whole = b.subrange(pos, pos + s.len() + t.len());
    assert(whole == s + t);
    assert(b.subrange(pos, pos + s.len()) =~= whole.subrange(0, s.len() as int));
    assert(whole.subrange(0, s.len() as int) =~= s);
    assert(b.subrange(pos + s.len(), pos + s.len() + t.len()) =~= whole.subrange(
        s.len() as int,
        whole.len() as int,
    ));
    assert(whole.subrange(s.len() as int, whole.len() as int) =~= t);
}

proof fn lemma_holds_byte(b: Seq<u8>, pos: int, s: Seq<u8>, i: int)
    requires
        holds_at(b, pos, s),
        0 <= i < s.len(),
    ensures
        b[pos + i] == s[i],
{
    assert(b.subrange(pos, pos + s.len())[i] == b[pos + i]);
}

proof fn lemma_decimal(n: nat)
    ensures
        decimal(n).len() >= 1,
        forall|i: int| 0 <= i < decimal(n).len() ==> is_digit(#[trigger] decimal(n)[i]),
        decimal_value(decimal(n)) == n,
    decreases n,
{
    let d = decimal(n);
    if n >= 10 {
        lemma_decimal(n / 10);
        assert(d.drop_last() =~= decimal(n / 10));
        assert(d.last() == (48 + n % 10) as u8);
        assert(d.last() - 48 == n % 10);
        assert(forall|i: int| 0 <= i < d.len() - 1 ==> d[i] == decimal(n / 10)[i]);
        assert((n / 10) * 10 + n % 10 == n);
        assert(decimal_value(d) == decimal_value(d.drop_last()) * 10 + (d.last() - 48) as nat);
    } else {
        assert(d.drop_last() =~= Seq::<u8>::empty());
        assert(d.last() - 48 == n);
        assert(decimal_value(d) == decimal_value(d.drop_last()) * 10 + (d.last() - 48) as nat);
    }
}

proof fn lemma_digits_end_at(b: Seq<u8>, pos: int, end: int)
    requires
        0 <= pos <= end <= b.len(),
        forall|i: int| pos <= i < end ==> is_digit(#[trigger] b[i]),
        end == b.len() || !is_digit(b[end]),
    ensures
        digits_end(b, pos) == end,
    decreases end - pos,
{
    if pos < end {
        lemma_digits_end_at(b, pos + 1, end);
    }
}

/// A number written by `decimal` and followed by a non-digit reads back.
proof fn lemma_number_holds(b: Seq<u8>, pos: int, n: nat, next: u8, max: nat)
    requires
        holds_at(b, pos, decimal(n) + seq![next]),
        !is_digit(next),
        n <= max,
    ensures
        number_at(b, pos, max) == Some((n, pos + decimal(n).len())),
{
    lemma_decimal(n);
    lemma_holds_split(b, pos, decimal(n), seq![next]);
    lemma_holds_byte(b, pos + decimal(n).len(), seq![next], 0);
    let end = pos + decimal(n).len();
    assert forall|i: int| pos <= i < end implies is_digit(#[trigger] b[i]) by {
        lemma_holds_byte(b, pos, decimal(n), i - pos);
    }
    lemma_digits_end_at(b, pos, end);
}

proof fn lemma_pair_holds(b: Seq<u8>, pos: int, p: (u64, u128))
    requires
        holds_at(b, pos, pair_json(p)),
    ensures
        pair_at(b, pos) == Some((p, pos + pair_json(p).len())),
{
    let a = decimal(p.0 as nat);
    let v = decimal(p.1 as nat);
    assert(pair_json(p) =~= seq![91u8] + ((a + seq![44u8]) + (v + seq![93u8])));
    lemma_holds_split(b, pos, seq![91u8], (a + seq![44u8]) + (v + seq![93u8]));
    lemma_holds_split(b, pos + 1, a + seq![44u8], v + seq![93u8]);
    lemma_holds_byte(b, pos, seq![91u8], 0);
    lemma_number_holds(b, pos + 1, p.0 as nat, 44, u64::MAX as nat);
    lemma_holds_split(b, pos + 1, a, seq![44u8]);
    lemma_holds_byte(b, pos + 1 + a.len(), seq![44u8], 0);
    lemma_number_holds(b, pos + 2 + a.len(), p.1 as nat, 93, u128::MAX as nat);
    lemma_holds_split(b, pos + 2 + a.len(), v, seq![93u8]);
    lemma_holds_byte(b, pos + 2 + a.len() + v.len(), seq![93u8], 0);
}

proof fn lemma_pairs_json_front(bs: Seq<(u64, u128)>)
    requires
        bs.len() >= 2,
    ensures
        pairs_json(bs) == pair_json(bs[0]) + (seq![44u8] + pairs_json(bs.drop_first())),
    decreases bs.len(),
{
    if bs.len() == 2 {
        assert(bs.drop_last() =~= seq![bs[0]]);
        assert(bs.drop_first() =~= seq![bs[1]]);
        assert(pairs_json(bs.drop_last()) == pair_json(bs[0]));
        assert(pairs_json(bs.drop_first()) == pair_json(bs[1]));
        assert(pairs_json(bs) == pairs_json(bs.drop_last()) + seq![44u8] + pair_json(bs.last()));
        assert(pairs_json(bs) =~= pair_json(bs[0]) + (seq![44u8] + pairs_json(bs.drop_first())));
    } else {
        let init = bs.drop_last();
        let tl = bs.drop_first();
        lemma_pairs_json_front(init);
        assert(init.drop_first() =~= tl.drop_last());
        assert(init[0] == bs[0]);
        assert(tl.last() == bs.last());
        assert(pairs_json(bs) == pairs_json(init) + seq![44u8] + pair_json(bs.last()));
        assert(pairs_json(tl) == pairs_json(tl.drop_last()) + seq![44u8] + pair_json(tl.last()));
        assert(pairs_json(bs) =~= pair_json(bs[0]) + (seq![44u8] + pairs_json(tl)));
    }
}

proof fn lemma_pairs_json_head(bs: Seq<(u64, u128)>)
    requires
        bs.len() >= 1,
    ensures
        pairs_json(bs).len() >= 1,
        pairs_json(bs)[0] == 91,
    decreases bs.len(),
{
    if bs.len() > 1 {
        lemma_pairs_json_head(bs.drop_last());
    }
}

proof fn lemma_pairs_holds(b: Seq<u8>, pos: int, bs: Seq<(u64, u128)>, acc: Seq<(u64, u128)>)
    requires
        bs.len() >= 1,
        holds_at(b, pos, pairs_json(bs) + seq![93u8]),
    ensures
        pairs_from(b, pos, acc) == Some((acc + bs, pos + pairs_json(bs).len())),
    decreases bs.len(),
{
    let first = pair_json(bs[0]);
    if bs.len() == 1 {
        lemma_holds_split(b, pos, first, seq![93u8]);
        lemma_pair_holds(b, pos, bs[0]);
        lemma_holds_byte(b, pos + first.len(), seq![93u8], 0);
        assert(acc.push(bs[0]) =~= acc + bs);
    } else {
        lemma_pairs_json_front(bs);
        let rest = pairs_json(bs.drop_first());
        assert(pairs_json(bs) + seq![93u8] =~= first + (seq![44u8] + (rest + seq![93u8])));
        lemma_holds_split(b, pos, first, seq![44u8] + (rest + seq![93u8]));
        lemma_holds_split(b, pos + first.len(), seq![44u8], rest + seq![93u8]);
        lemma_pair_holds(b, pos, bs[0]);
        lemma_holds_byte(b, pos + first.len(), seq![44u8], 0);
        lemma_pairs_holds(b, pos + first.len() + 1, bs.drop_first(), acc.push(bs[0]));
        assert(acc.push(bs[0]) + bs.drop_first() =~= acc + bs);
    }
}

proof fn lemma_balances_body_holds(b: Seq<u8>, pos: int, bs: Seq<(u64, u128)>)
    requires
        holds_at(b, pos, balances_open_spec() + (pairs_json(bs) + balances_close_spec())),
    ensures
        balances_body(b, pos) == Some(
            (bs, pos + balances_open_spec().len() + pairs_json(bs).len() + 2),
        ),
{
    let open = balances_open_spec();
    let pairs = pairs_json(bs);
    lemma_holds_split(b, pos, open, pairs + balances_close_spec());
    let p = pos + open.len();
    lemma_holds_split(b, p, pairs, balances_close_spec());
    if bs.len() == 0 {
        assert(pairs.len() == 0);
        lemma_holds_byte(b, p, balances_close_spec(), 0);
        assert(bs =~= Seq::<(u64, u128)>::empty());
    } else {
        assert(balances_close_spec() =~= seq![93u8] + seq![125u8]);
        assert(pairs + balances_close_spec() =~= (pairs + seq![93u8]) + seq![125u8]);
        lemma_holds_split(b, p, pairs + seq![93u8], seq![125u8]);
        lemma_pairs_holds(b, p, bs, Seq::empty());
        assert(Seq::<(u64, u128)>::empty() + bs =~= bs);
        lemma_pairs_json_head(bs);
        lemma_holds_byte(b, p, pairs, 0);
    }
}

proof fn lemma_sudo_body_holds(b: Seq<u8>, pos: int, key: Option<u64>)
    requires
        holds_at(b, pos, sudo_open_spec() + (key_json(key) + seq![125u8])),
    ensures
        sudo_body(b, pos) == Some((key, pos + sudo_open_spec().len() + key_json(key).len() + 1)),
{
    let open = sudo_open_spec();
    let k = key_json(key);
    lemma_holds_split(b, pos, open, k + seq![125u8]);
    let p = pos + open.len();
    lemma_holds_split(b, p, k, seq![125u8]);
    lemma_holds_byte(b, p + k.len(), seq![125u8], 0);
    match key {
        None => {},
        Some(a) => {
            lemma_decimal(a as nat);
            lemma_holds_byte(b, p, k, 0);
            assert(expect_at(b, p, null_word_spec()) is None) by {
                if expect_at(b, p, null_word_spec()) is Some {
                    assert(b.subrange(p, p + 4)[0] == b[p]);
                }
            }
            lemma_number_holds(b, p, a as nat, 125, u64::MAX as nat);
        },
    }
}

/// `"name":` at `pos` names the module `name`.
proof fn lemma_name_holds(b: Seq<u8>, pos: int, name: Seq<u8>)
    requires
        holds_at(b, pos, seq![34u8] + (name + seq![34u8, 58u8])),
        forall|i: int| 0 <= i < name.len() ==> name[i] != 34,
    ensures
        quote_end(b, pos + 1) == pos + 1 + name.len(),
        byte_is(b, pos, 34),
        byte_is(b, pos + 1 + name.len(), 34),
        byte_is(b, pos + 2 + name.len(), 58),
        b.subrange(pos + 1, pos + 1 + name.len()) == name,
{
    lemma_holds_split(b, pos, seq![34u8], name + seq![34u8, 58u8]);
    lemma_holds_split(b, pos + 1, name, seq![34u8, 58u8]);
    lemma_holds_byte(b, pos, seq![34u8], 0);
    lemma_holds_byte(b, pos + 1 + name.len(), seq![34u8, 58u8], 0);
    lemma_holds_byte(b, pos + 1 + name.len(), seq![34u8, 58u8], 1);
    assert forall|i: int| pos + 1 <= i < pos + 1 + name.len() implies b[i] != 34 by {
        lemma_holds_byte(b, pos + 1, name, i - pos - 1);
    }
    lemma_quote_end_found(b, pos + 1, pos + 1 + name.len());
}

pub(crate) proof fn lemma_quote_end_found(b: Seq<u8>, pos: int, end: int)
    requires
        0 <= pos <= end < b.len(),
        b[end] == 34,
        forall|i: int| pos <= i < end ==> b[i] != 34,
    ensures
        quote_end(b, pos) == end,
    decreases end - pos,
{
    if pos < end {
        lemma_quote_end_found(b, pos + 1, end);
    }
}

pub open spec fn balances_member_json(bs: Seq<(u64, u128)>) -> Seq<u8> {
    seq![34u8] + (balances_name_spec() + seq![34u8, 58u8]) + (balances_open_spec() + (
    pairs_json(bs) + balances_close_spec()))
}

pub open spec fn sudo_member_json(key: Option<u64>) -> Seq<u8> {
    seq![34u8] + (sudo_name_spec() + seq![34u8, 58u8]) + (sudo_open_spec() + (key_json(key)
        + seq![125u8]))
}

proof fn lemma_balances_member(b: Seq<u8>, pos: int, acc: GenesisModel, bs: Seq<(u64, u128)>, seen_sudo: bool)
    requires
        holds_at(b, pos, balances_member_json(bs)),
    ensures
        member_at(b, pos, acc, false, seen_sudo) == Ok::<(GenesisModel, int, bool, bool), GenesisError>(
            (GenesisModel { balances: bs, ..acc }, pos + balances_member_json(bs).len(), true, seen_sudo),
        ),
{
    reveal(member_at);
    let head = seq![34u8] + (balances_name_spec() + seq![34u8, 58u8]);
    let body = balances_open_spec() + (pairs_json(bs) + balances_close_spec());
    lemma_holds_split(b, pos, head, body);
    assert(forall|i: int| 0 <= i < balances_name_spec().len() ==> balances_name_spec()[i] != 34);
    lemma_name_holds(b, pos, balances_name_spec());
    lemma_balances_body_holds(b, pos + head.len(), bs);
}

proof fn lemma_sudo_member(b: Seq<u8>, pos: int, acc: GenesisModel, key: Option<u64>, seen_balances: bool)
    requires
        holds_at(b, pos, sudo_member_json(key)),
    ensures
        member_at(b, pos, acc, seen_balances, false) == Ok::<(GenesisModel, int, bool, bool), GenesisError>(
            (GenesisModel { sudo_key: key, ..acc }, pos + sudo_member_json(key).len(), seen_balances, true),
        ),
{
    reveal(member_at);
    let head = seq![34u8] + (sudo_name_spec() + seq![34u8, 58u8]);
    let body = sudo_open_spec() + (key_json(key) + seq![125u8]);
    lemma_holds_split(b, pos, head, body);
    assert(forall|i: int| 0 <= i < sudo_name_spec().len() ==> sudo_name_spec()[i] != 34);
    lemma_name_holds(b, pos, sudo_name_spec());
    lemma_sudo_body_holds(b, pos + head.len(), key);
}

pub open spec fn no_space(s: Seq<u8>) -> bool {
    forall|k: int| 0 <= k < s.len() ==> !is_json_space(#[trigger] s[k])
}

proof fn lemma_no_space_concat(a: Seq<u8>, b: Seq<u8>)
    requires
        no_space(a),
        no_space(b),
    ensures
        no_space(a + b),
{
    assert forall|k: int| 0 <= k < (a + b).len() implies !is_json_space(#[trigger] (a + b)[k]) by {
        if k < a.len() {
            assert((a + b)[k] == a[k]);
        } else {
            assert((a + b)[k] == b[k - a.len()]);
        }
    }
}

proof fn lemma_compact_plain(b: Seq<u8>, i: int, in_name: bool, after_word: bool)
    requires
        0 <= i <= b.len(),
        forall|k: int| i <= k < b.len() ==> !is_json_space(#[trigger] b[k]),
    ensures
        compact_from(b, i, in_name, after_word) == b.subrange(i, b.len() as int),
    decreases b.len() - i,
{
    if i < b.len() {
        lemma_compact_plain(b, i + 1, !in_name, false);
        lemma_compact_plain(b, i + 1, true, false);
        lemma_compact_plain(b, i + 1, false, is_word_byte(b[i]));
        assert(b.subrange(i, b.len() as int) =~= seq![b[i]] + b.subrange(i + 1, b.len() as int));
    } else {
        assert(b.subrange(i, b.len() as int) =~= Seq::<u8>::empty());
    }
}

/// Inside a quoted name every byte up to the closing quote is kept.
pub(crate) proof fn lemma_compact_name(b: Seq<u8>, i: int, end: int, after_word: bool)
    requires
        0 <= i <= end < b.len(),
        b[end] == 34,
        forall|k: int| i <= k < end ==> b[k] != 34,
    ensures
        compact_from(b, i, true, after_word) == b.subrange(i, end) + (seq![34u8] + compact_from(
            b,
            end + 1,
            false,
            false,
        )),
    decreases end - i,
{
    let tail = seq![34u8] + compact_from(b, end + 1, false, false);
    if i < end {
        lemma_compact_name(b, i + 1, end, false);
        assert(b.subrange(i, end) =~= seq![b[i]] + b.subrange(i + 1, end));
        assert(seq![b[i]] + (b.subrange(i + 1, end) + tail) =~= b.subrange(i, end) + tail);
    } else {
        assert(b.subrange(i, end) =~= Seq::<u8>::empty());
        assert(Seq::<u8>::empty() + tail =~= tail);
    }
}

proof fn lemma_decimal_no_space(n: nat)
    ensures
        no_space(decimal(n)),
{
    lemma_decimal(n);
}

proof fn lemma_pairs_no_space(bs: Seq<(u64, u128)>)
    ensures
        no_space(pairs_json(bs)),
    decreases bs.len(),
{
    if bs.len() > 0 {
        let p = if bs.len() == 1 { bs[0] } else { bs.last() };
        lemma_decimal_no_space(p.0 as nat);
        lemma_decimal_no_space(p.1 as nat);
        lemma_no_space_concat(seq![91u8], decimal(p.0 as nat));
        lemma_no_space_concat(seq![91u8] + decimal(p.0 as nat), seq![44u8]);
        lemma_no_space_concat(seq![91u8] + decimal(p.0 as nat) + seq![44u8], decimal(p.1 as nat));
        lemma_no_space_concat(
            seq![91u8] + decimal(p.0 as nat) + seq![44u8] + decimal(p.1 as nat),
            seq![93u8],
        );
        if bs.len() > 1 {
            lemma_pairs_no_space(bs.drop_last());
            lemma_no_space_concat(pairs_json(bs.drop_last()), seq![44u8]);
            lemma_no_space_concat(pairs_json(bs.drop_last()) + seq![44u8], pair_json(p));
        }
    }
}

/// The encoding of a patch holds no whitespace, so compacting keeps it.
pub proof fn lemma_compact_patch_json(g: GenesisModel)
    ensures
        compact(patch_json(g)) == patch_json(g),
{
    let b = patch_json(g);
    lemma_pairs_no_space(g.balances);
    match g.sudo_key {
        Some(k) => lemma_decimal_no_space(k as nat),
        None => {},
    }
    assert(no_space(patch_open_spec()));
    assert(no_space(balances_open_spec()));
    assert(no_space(balances_close_spec()));
    assert(no_space(sudo_member_spec()));
    assert(no_space(sudo_open_spec()));
    assert(no_space(null_word_spec()));
    assert(no_space(seq![125u8, 125u8]));
    let a1 = patch_open_spec() + balances_open_spec();
    lemma_no_space_concat(patch_open_spec(), balances_open_spec());
    lemma_no_space_concat(a1, pairs_json(g.balances));
    let a2 = a1 + pairs_json(g.balances);
    lemma_no_space_concat(a2, balances_close_spec());
    let a3 = a2 + balances_close_spec();
    lemma_no_space_concat(a3, sudo_member_spec());
    let a4 = a3 + sudo_member_spec();
    lemma_no_space_concat(a4, sudo_open_spec());
    let a5 = a4 + sudo_open_spec();
    lemma_no_space_concat(a5, key_json(g.sudo_key));
    let a6 = a5 + key_json(g.sudo_key);
    lemma_no_space_concat(a6, seq![125u8, 125u8]);
    assert(b == a6 + seq![125u8, 125u8]);
    lemma_compact_plain(b, 0, false, false);
    assert(b.subrange(0, b.len() as int) =~= b);
}

/// Decoding the encoding of a patch gives the patch back.
#[verifier::rlimit(60)]
pub proof fn lemma_patch_round_trip(g: GenesisModel)
    ensures
        parse_patch(patch_json(g)) == Ok::<GenesisModel, GenesisError>(g),
{
    let b = patch_json(g);
    let bal = balances_member_json(g.balances);
    let sudo = sudo_member_json(g.sudo_key);
    assert(b =~= seq![123u8] + (bal + (seq![44u8] + (sudo + seq![125u8])))) by {
        assert(patch_open_spec() =~= seq![123u8] + (seq![34u8] + (balances_name_spec() + seq![34u8, 58u8])));
        assert(sudo_member_spec() =~= seq![44u8] + (seq![34u8] + (sudo_name_spec() + seq![34u8, 58u8])));
    }
    assert(holds_at(b, 0, b)) by {
        assert(b.subrange(0, b.len() as int) =~= b);
    }
    lemma_holds_split(b, 0, seq![123u8], bal + (seq![44u8] + (sudo + seq![125u8])));
    lemma_holds_byte(b, 0, seq![123u8], 0);
    lemma_holds_split(b, 1, bal, seq![44u8] + (sudo + seq![125u8]));
    let q = 1 + bal.len() as int;
    lemma_holds_split(b, q, seq![44u8], sudo + seq![125u8]);
    lemma_holds_byte(b, q, seq![44u8], 0);
    lemma_holds_split(b, q + 1, sudo, seq![125u8]);
    let e = q + 1 + sudo.len() as int;
    lemma_holds_byte(b, e, seq![125u8], 0);
    lemma_holds_byte(b, 1, bal, 0);
    lemma_balances_member(b, 1, empty_patch(), g.balances, false);
    let m1 = GenesisModel { balances: g.balances, ..empty_patch() };
    lemma_sudo_member(b, q + 1, m1, g.sudo_key, true);
    assert(members_from(b, q + 1, m1, true, false) == Ok::<GenesisModel, GenesisError>(g));
}

proof fn lemma_members_no_space(g: GenesisModel)
    ensures
        no_space(balances_member_json(g.balances)),
        no_space(sudo_member_json(g.sudo_key)),
        patch_json(g) =~= seq![123u8] + (balances_member_json(g.balances) + (seq![44u8] + (
        sudo_member_json(g.sudo_key) + seq![125u8]))),
{
    assert(patch_open_spec() =~= seq![123u8] + (seq![34u8] + (balances_name_spec() + seq![34u8, 58u8])));
    assert(sudo_member_spec() =~= seq![44u8] + (seq![34u8] + (sudo_name_spec() + seq![34u8, 58u8])));
    let bh = seq![34u8] + (balances_name_spec() + seq![34u8, 58u8]);
    let sh = seq![34u8] + (sudo_name_spec() + seq![34u8, 58u8]);
    assert(no_space(bh));
    assert(no_space(sh));
    assert(no_space(balances_open_spec()));
    assert(no_space(balances_close_spec()));
    assert(no_space(sudo_open_spec()));
    assert(no_space(null_word_spec()));
    assert(no_space(seq![125u8]));
    lemma_pairs_no_space(g.balances);
    lemma_no_space_concat(pairs_json(g.balances), balances_close_spec());
    lemma_no_space_concat(balances_open_spec(), pairs_json(g.balances) + balances_close_spec());
    lemma_no_space_concat(bh, balances_open_spec() + (pairs_json(g.balances) + balances_close_spec()));
    match g.sudo_key {
        Some(k) => lemma_decimal_no_space(k as nat),
        None => {},
    }
    lemma_no_space_concat(key_json(g.sudo_key), seq![125u8]);
    lemma_no_space_concat(sudo_open_spec(), key_json(g.sudo_key) + seq![125u8]);
    lemma_no_space_concat(sh, sudo_open_spec() + (key_json(g.sudo_key) + seq![125u8]));
}

proof fn lemma_no_space_plain(b: Seq<u8>)
    requires
        no_space(b),
    ensures
        compact(b) == b,
{
    lemma_compact_plain(b, 0, false, false);
    assert(b.subrange(0, b.len() as int) =~= b);
}

proof fn lemma_unknown_member(b: Seq<u8>, pos: int, acc: GenesisModel, name: Seq<u8>, sb: bool, ss: bool)
    requires
        holds_at(b, pos, seq![34u8] + (name + seq![34u8, 58u8])),
        forall|i: int| 0 <= i < name.len() ==> name[i] != 34,
        name != balances_name_spec(),
        name != sudo_name_spec(),
    ensures
        member_at(b, pos, acc, sb, ss) == Err::<(GenesisModel, int, bool, bool), GenesisError>(
            GenesisError::UnknownModule,
        ),
{
    reveal(member_at);
    lemma_name_holds(b, pos, name);
}

#[verifier::rlimit(80)]
proof fn lemma_unknown_module_last_parse(g: GenesisModel, name: Seq<u8>, rest: Seq<u8>)
    requires
        forall|i: int| 0 <= i < name.len() ==> name[i] != 34,
        name != balances_name_spec(),
        name != sudo_name_spec(),
    ensures
        parse_patch(patch_json(g).drop_last() + seq![44u8] + (seq![34u8] + (name + seq![34u8, 58u8]))
            + rest) == Err::<GenesisModel, GenesisError>(GenesisError::UnknownModule),
{
    lemma_members_no_space(g);
    let bal = balances_member_json(g.balances);
    let sudo = sudo_member_json(g.sudo_key);
    let head = seq![34u8] + (name + seq![34u8, 58u8]);
    let b = patch_json(g).drop_last() + seq![44u8] + head + rest;
    assert(patch_json(g).drop_last() =~= seq![123u8] + (bal + (seq![44u8] + sudo)));
    assert(b =~= seq![123u8] + (bal + (seq![44u8] + (sudo + (seq![44u8] + (head + rest))))));
    assert(holds_at(b, 0, b)) by {
        assert(b.subrange(0, b.len() as int) =~= b);
    }
    lemma_holds_split(b, 0, seq![123u8], bal + (seq![44u8] + (sudo + (seq![44u8] + (head + rest)))));
    lemma_holds_byte(b, 0, seq![123u8], 0);
    lemma_holds_split(b, 1, bal, seq![44u8] + (sudo + (seq![44u8] + (head + rest))));
    let q = 1 + bal.len() as int;
    lemma_holds_split(b, q, seq![44u8], sudo + (seq![44u8] + (head + rest)));
    lemma_holds_byte(b, q, seq![44u8], 0);
    lemma_holds_split(b, q + 1, sudo, seq![44u8] + (head + rest));
    let e = q + 1 + sudo.len() as int;
    lemma_holds_split(b, e, seq![44u8], head + rest);
    lemma_holds_byte(b, e, seq![44u8], 0);
    lemma_holds_split(b, e + 1, head, rest);
    lemma_holds_byte(b, 1, bal, 0);
    lemma_balances_member(b, 1, empty_patch(), g.balances, false);
    let m1 = GenesisModel { balances: g.balances, ..empty_patch() };
    lemma_sudo_member(b, q + 1, m1, g.sudo_key, true);
    lemma_unknown_member(b, e + 1, g, name, true, true);
    assert(members_from(b, e + 1, g, true, true) == Err::<GenesisModel, GenesisError>(
        GenesisError::UnknownModule,
    ));
    assert(members_from(b, q + 1, m1, true, false) == Err::<GenesisModel, GenesisError>(
        GenesisError::UnknownModule,
    ));
}

/// A patch written without whitespace that names both modules and then one
/// that the runtime does not hold is refused as naming an unknown module,
/// and no state comes of it.
pub proof fn lemma_unknown_module_last(g: GenesisModel, name: Seq<u8>, rest: Seq<u8>)
    requires
        forall|i: int| 0 <= i < name.len() ==> name[i] != 34,
        name != balances_name_spec(),
        name != sudo_name_spec(),
        no_space(name),
        no_space(rest),
    ensures
        build_state_spec(patch_json(g).drop_last() + seq![44u8] + (seq![34u8] + (name + seq![
            34u8,
            58u8,
        ])) + rest) == Err::<StateView, GenesisError>(GenesisError::UnknownModule),
{
    lemma_unknown_module_last_parse(g, name, rest);
    lemma_members_no_space(g);
    let bal = balances_member_json(g.balances);
    let sudo = sudo_member_json(g.sudo_key);
    let head = seq![34u8] + (name + seq![34u8, 58u8]);
    let front = patch_json(g).drop_last();
    assert(front =~= seq![123u8] + (bal + (seq![44u8] + sudo)));
    assert(no_space(seq![123u8]) && no_space(seq![44u8]) && no_space(seq![34u8])
        && no_space(seq![34u8, 58u8]));
    lemma_no_space_concat(seq![44u8], sudo);
    lemma_no_space_concat(bal, seq![44u8] + sudo);
    lemma_no_space_concat(seq![123u8], bal + (seq![44u8] + sudo));
    lemma_no_space_concat(front, seq![44u8]);
    lemma_no_space_concat(name, seq![34u8, 58u8]);
    lemma_no_space_concat(seq![34u8], name + seq![34u8, 58u8]);
    lemma_no_space_concat(front + seq![44u8], head);
    lemma_no_space_concat(front + seq![44u8] + head, rest);
    lemma_no_space_plain(front + seq![44u8] + head + rest);
}

} // verus!
