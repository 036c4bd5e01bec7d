//! Package metadata: names, optional dependencies, sizes, and the parser
//! that turns a package manager's textual report into a structured record.
//!
//! Sizes carry their magnitude in hundredths of the printed unit, so
//! `10.00 KiB` is stored as `KiB(1000)`; magnitudes compare across units by
//! normalizing to hundredths of a byte.

use vstd::prelude::*;

use crate::assoc::{assoc_map, assoc_insert, assoc_remove, keys_unique};
use crate::text::{
    find_char_spec, find_pair_spec, find_triple_spec, find_char_from, find_pair_from,
    find_triple_from, lemma_find_char_range, lemma_find_pair_range, tokens_spec, trim_spec, trim,
    split_ws,
};

verus! {

/// A package's display name.
#[derive(Debug, Clone)]
pub struct PackageName(pub String);

impl View for PackageName {
    type V = Seq<char>;

    open spec fn view(&self) -> Seq<char> {
        self.0@
    }
}

impl Default for PackageName {
    fn default() -> (r: Self)
        ensures
            r@ == Seq::<char>::empty(),
    {
        PackageName(String::new())
    }
}

impl From<String> for PackageName {
    fn from(value: String) -> (r: Self) {
        PackageName(value)
    }
}

impl vstd::std_specs::convert::FromSpecImpl<String> for PackageName {
    open spec fn obeys_from_spec() -> bool {
        true
    }

    open spec fn from_spec(value: String) -> Self {
        PackageName(value)
    }
}

/// An optional dependency: a package name and the free-text reason the
/// report gives for it.
#[derive(Debug, Clone)]
pub struct OptionalDep {
    pub package_name: String,
    pub reason: String,
}

impl View for OptionalDep {
    type V = (Seq<char>, Seq<char>);

    open spec fn view(&self) -> (Seq<char>, Seq<char>) {
        (self.package_name@, self.reason@)
    }
}

impl Default for OptionalDep {
    fn default() -> (r: Self)
        ensures
            r@ == (Seq::<char>::empty(), Seq::<char>::empty()),
    {
        OptionalDep { package_name: String::new(), reason: String::new() }
    }
}

/// How an optional-dependency line reads: the text before the first
/// `": "` is the name, trimmed; the text between the first `": "` and the
/// next one (or the end) is the reason. A line without `": "` does not
/// parse.
pub open spec fn optional_dep_spec(s: Seq<char>) -> Option<(Seq<char>, Seq<char>)> {
    match find_pair_spec(s, ':', ' ') {
        None => None,
        Some(i) => {
            let name = trim_spec(s.take(i));
            let rest = s.skip(i + 2);
            let reason = match find_pair_spec(rest, ':', ' ') {
                Some(j) => rest.take(j),
                None => rest,
            };
            Some((name, reason))
        },
    }
}

impl OptionalDep {
    /// Parse a `"name: reason"` line, as `optional_dep_spec` states.
    pub fn from_str(s: &str) -> (r: Result<OptionalDep, String>)
        ensures
            match r {
                Ok(d) => optional_dep_spec(s@) == Some((d.package_name@, d.reason@)),
                Err(_) => optional_dep_spec(s@) is None,
            },
    {
        let n: usize = s.unicode_len();
        match find_pair_from(s, 0, ':', ' ') {
            None => {
                proof {
                    assert(s@.skip(0) =~= s@);
                }
                Err(String::from_str("Unexpected OptionalDep format"))
            },
            Some(i) => {
                let raw_name = s.substring_char(0, i);
                let name = trim(raw_name);
                let reason_end: usize = match find_pair_from(s, i + 2, ':', ' ') {
                    Some(j) => j,
                    None => n,
                };
                let reason = s.substring_char(i + 2, reason_end);
                proof {
                    assert(s@.skip(0) =~= s@);
                    assert(raw_name@ =~= s@.take(i as int));
                    let rest = s@.skip(i + 2);
                    match find_pair_spec(rest, ':', ' ') {
                        Some(j) => {
                            assert(reason@ =~= rest.take(j));
                        },
                        None => {
                            assert(reason@ =~= rest);
                        },
                    }
                }
                Ok(OptionalDep { package_name: name.to_owned(), reason: reason.to_owned() })
            },
        }
    }
}

/// A reported size: a magnitude in hundredths of the named unit.
#[derive(Debug, Clone, Copy, PartialEq, Eq, Structural)]
pub enum PackageSize {
    Bytes(u64),
    KiB(u64),
    MiB(u64),
}

impl Default for PackageSize {
    fn default() -> (r: Self)
        ensures
            r == PackageSize::Bytes(0u64),
    {
        PackageSize::Bytes(0)
    }
}

impl PackageSize {
    /// The magnitude normalized to hundredths of a byte.
    pub open spec fn canon(self) -> int {
        match self {
            PackageSize::Bytes(c) => c as int,
            PackageSize::KiB(c) => c as int * 1024,
            PackageSize::MiB(c) => c as int * 1048576,
        }
    }

    /// The normalized magnitude, computed exactly.
    pub fn canon_val(&self) -> (r: u128)
        ensures
            r as int == self.canon(),
    {
        match self {
            PackageSize::Bytes(c) => *c as u128,
            PackageSize::KiB(c) => *c as u128 * 1024,
            PackageSize::MiB(c) => *c as u128 * 1048576,
        }
    }
}

impl PartialOrd for PackageSize {
    /// Sizes order by their normalized magnitude, across units.
    fn partial_cmp(&self, other: &Self) -> (r: Option<core::cmp::Ordering>) {
        let a: u128 = self.canon_val();
        let b: u128 = other.canon_val();
        if a < b {
            Some(core::cmp::Ordering::Less)
        } else if a == b {
            Some(core::cmp::Ordering::Equal)
        } else {
            Some(core::cmp::Ordering::Greater)
        }
    }
}

impl vstd::std_specs::cmp::PartialOrdSpecImpl for PackageSize {
    open spec fn obeys_partial_cmp_spec() -> bool {
        true
    }

    open spec fn partial_cmp_spec(&self, other: &Self) -> Option<core::cmp::Ordering> {
        if self.canon() < other.canon() {
            Some(core::cmp::Ordering::Less)
        } else if self.canon() == other.canon() {
            Some(core::cmp::Ordering::Equal)
        } else {
            Some(core::cmp::Ordering::Greater)
        }
    }
}


/// The character of one decimal digit.
pub open spec fn digit_char(d: int) -> char {
    if d == 0 {
        '0'
    } else if d == 1 {
        '1'
    } else if d == 2 {
        '2'
    } else if d == 3 {
        '3'
    } else if d == 4 {
        '4'
    } else if d == 5 {
        '5'
    } else if d == 6 {
        '6'
    } else if d == 7 {
        '7'
    } else if d == 8 {
        '8'
    } else {
        '9'
    }
}

/// The decimal digits of a number, most significant first.
pub open spec fn digits_seq(v: int) -> Seq<char>
    decreases v,
{
    if v < 10 {
        seq![digit_char(v)]
    } else {
        digits_seq(v / 10).push(digit_char(v % 10))
    }
}

/// One digit as text.
fn digit_str(d: u64) -> (r: &'static str)
    requires
        d < 10,
    ensures
        r@ == seq![digit_char(d as int)],
{
    proof {
        reveal_strlit("0");
        reveal_strlit("1");
        reveal_strlit("2");
        reveal_strlit("3");
        reveal_strlit("4");
        reveal_strlit("5");
        reveal_strlit("6");
        reveal_strlit("7");
        reveal_strlit("8");
        reveal_strlit("9");
    }
    let r: &'static str = match d {
        0 => "0",
        1 => "1",
        2 => "2",
        3 => "3",
        4 => "4",
        5 => "5",
        6 => "6",
        7 => "7",
        8 => "8",
        _ => "9",
    };
    proof {
        assert(r@ =~= seq![digit_char(d as int)]);
    }
    r
}

/// A number as decimal text.
fn digits_string(v: u64) -> (r: String)
    ensures
        r@ == digits_seq(v as int),
    decreases v,
{
    if v < 10 {
        digit_str(v).to_owned()
    } else {
        let mut s = digits_string(v / 10);
        s.append(digit_str(v % 10));
        s
    }
}

impl PackageSize {
    /// The magnitude in hundredths, and the unit's name as text.
    pub open spec fn centi_and_unit(self) -> (int, Seq<char>) {
        match self {
            PackageSize::Bytes(c) => (c as int, seq!['B', 'y', 't', 'e', 's']),
            PackageSize::KiB(c) => (c as int, seq!['K', 'i', 'B']),
            PackageSize::MiB(c) => (c as int, seq!['M', 'i', 'B']),
        }
    }

    /// How a size reads: the magnitude with two decimals, a space, and
    /// the unit's name.
    pub open spec fn text_spec(self) -> Seq<char> {
        let cu = self.centi_and_unit();
        digits_seq(cu.0 / 100) + seq!['.', digit_char((cu.0 / 10) % 10), digit_char(cu.0 % 10), ' ']
            + cu.1
    }

    /// Render the size, as `text_spec` states.
    pub fn to_text(&self) -> (r: String)
        ensures
            r@ == self.text_spec(),
    {
        let c: u64 = match self {
            PackageSize::Bytes(c) => *c,
            PackageSize::KiB(c) => *c,
            PackageSize::MiB(c) => *c,
        };
        let mut s = digits_string(c / 100);
        s.append(".");
        s.append(digit_str((c / 10) % 10));
        s.append(digit_str(c % 10));
        s.append(" ");
        let unit: &'static str = match self {
            PackageSize::Bytes(_) => "Bytes",
            PackageSize::KiB(_) => "KiB",
            PackageSize::MiB(_) => "MiB",
        };
        s.append(unit);
        proof {
            reveal_strlit(".");
            reveal_strlit(" ");
            reveal_strlit("Bytes");
            reveal_strlit("KiB");
            reveal_strlit("MiB");
            assert(s@ =~= self.text_spec());
        }
        s
    }
}

/// Whether a character is a decimal digit.
pub open spec fn is_digit(c: char) -> bool {
    48 <= c as u32 <= 57
}

/// The numeric value of a digit character.
pub open spec fn digit_val(c: char) -> int {
    c as u32 - 48
}

/// Every character of the sequence is a digit.
pub open spec fn all_digits(s: Seq<char>) -> bool {
    forall|k: int| 0 <= k < s.len() ==> is_digit(#[trigger] s[k])
}

/// The number a digit sequence denotes.
pub open spec fn digits_val(s: Seq<char>) -> int
    decreases s.len(),
{
    if s.len() == 0 {
        0
    } else {
        digits_val(s.drop_last()) * 10 + digit_val(s.last())
    }
}

/// The value of the first two fractional digits, in hundredths.
pub open spec fn frac2_val(s: Seq<char>) -> int {
    if s.len() == 0 {
        0
    } else if s.len() == 1 {
        digit_val(s[0]) * 10
    } else {
        digit_val(s[0]) * 10 + digit_val(s[1])
    }
}

/// The magnitude a numeric token denotes, in hundredths: digits, an
/// optional decimal point, and further digits of which the first two
/// count. A token with no digits, or any other character, denotes nothing.
pub open spec fn size_value_spec(t: Seq<char>) -> Option<int> {
    match find_char_spec(t, '.') {
        None => if t.len() > 0 && all_digits(t) {
            Some(digits_val(t) * 100)
        } else {
            None
        },
        Some(i) => {
            let ip = t.take(i);
            let fp = t.skip(i + 1);
            if ip.len() + fp.len() > 0 && all_digits(ip) && all_digits(fp) {
                Some(digits_val(ip) * 100 + frac2_val(fp))
            } else {
                None
            }
        },
    }
}

/// A digit prefix never exceeds the whole, and digit values are never
/// negative.
proof fn lemma_digits_prefix(s: Seq<char>, k: int)
    requires
        all_digits(s),
        0 <= k <= s.len(),
    ensures
        0 <= digits_val(s.take(k)) <= digits_val(s),
    decreases s.len(),
{
    if s.len() == 0 {
        assert(s.take(k) =~= s);
    } else if k == s.len() {
        assert(s.take(k) =~= s);
        lemma_digits_prefix(s.drop_last(), s.len() - 1);
        assert(s.drop_last().take(s.len() - 1) =~= s.drop_last());
    } else {
        assert(all_digits(s.drop_last()));
        assert(s.take(k) =~= s.drop_last().take(k));
        lemma_digits_prefix(s.drop_last(), k);
        assert(digit_val(s.last()) >= 0);
    }
}

/// Check that a substring consists of digits.
fn check_digits(t: &str, a: usize, b: usize) -> (r: bool)
    requires
        a <= b <= t@.len(),
    ensures
        r == all_digits(t@.subrange(a as int, b as int)),
{
    let mut k: usize = a;
    while k < b
        invariant
            a <= k <= b <= t@.len(),
            forall|j: int| a <= j < k ==> is_digit(#[trigger] t@[j]),
        decreases b - k,
    {
        let u: u32 = t.get_char(k) as u32;
        if u < 48 || u > 57 {
            proof {
                let sub = t@.subrange(a as int, b as int);
                assert(sub[k - a] == t@[k as int]);
            }
            return false;
        }
        k = k + 1;
    }
    proof {
        let sub = t@.subrange(a as int, b as int);
        assert forall|j: int| 0 <= j < sub.len() implies is_digit(#[trigger] sub[j]) by {
            assert(sub[j] == t@[j + a]);
        }
    }
    true
}

/// Read the digits of a substring as a number, reporting a value past
/// `u64::MAX` as an overflow.
fn digits_to_u64(t: &str, a: usize, b: usize) -> (r: Option<u64>)
    requires
        a <= b <= t@.len(),
        all_digits(t@.subrange(a as int, b as int)),
    ensures
        match r {
            Some(v) => v as int == digits_val(t@.subrange(a as int, b as int)),
            None => digits_val(t@.subrange(a as int, b as int)) > u64::MAX,
        },
{
    let ghost whole = t@.subrange(a as int, b as int);
    let mut v: u64 = 0;
    let mut k: usize = a;
    while k < b
        invariant
            a <= k <= b <= t@.len(),
            all_digits(whole),
            whole == t@.subrange(a as int, b as int),
            v as int == digits_val(t@.subrange(a as int, k as int)),
        decreases b - k,
    {
        let ghost prefix = t@.subrange(a as int, k as int);
        let u: u32 = t.get_char(k) as u32;
        proof {
            assert(whole[k - a] == t@[k as int]);
            assert(t@.subrange(a as int, k + 1).drop_last() =~= prefix);
            assert(t@.subrange(a as int, k + 1).last() == t@[k as int]);
        }
        let d: u64 = (u - 48) as u64;
        if v > (u64::MAX - d) / 10 {
            proof {
                assert(digits_val(t@.subrange(a as int, k + 1)) > u64::MAX);
                assert(whole.take(k - a + 1) =~= t@.subrange(a as int, k + 1));
                lemma_digits_prefix(whole, k - a + 1);
            }
            return None;
        }
        v = v * 10 + d;
        k = k + 1;
    }
    proof {
        assert(t@.subrange(a as int, b as int) =~= whole);
    }
    Some(v)
}

/// Parse a numeric token into hundredths, as `size_value_spec` states,
/// reporting values past `u64::MAX` as overflow.
fn parse_centi(t: &str) -> (r: Option<u64>)
    ensures
        match r {
            Some(v) => size_value_spec(t@) == Some(v as int),
            None => match size_value_spec(t@) {
                Some(w) => w > u64::MAX,
                None => true,
            },
        },
{
    let n: usize = t.unicode_len();
    let dot: Option<usize> = find_char_from(t, 0, '.');
    proof {
        assert(t@.skip(0) =~= t@);
    }
    let (ib, fa): (usize, usize) = match dot {
        Some(i) => (i, i + 1),
        None => (n, n),
    };
    proof {
        assert(t@.take(ib as int) =~= t@.subrange(0, ib as int));
        assert(t@.skip(fa as int) =~= t@.subrange(fa as int, n as int));
        if dot is None {
            assert(t@.take(n as int) =~= t@);
        }
    }
    if ib == 0 && fa == n {
        return None;
    }
    if !check_digits(t, 0, ib) {
        return None;
    }
    if !check_digits(t, fa, n) {
        return None;
    }
    let iv: u64 = match digits_to_u64(t, 0, ib) {
        Some(v) => v,
        None => {
            proof {
                let ghost ip = t@.subrange(0, ib as int);
                let ghost fp = t@.subrange(fa as int, n as int);
                assert(frac2_val(fp) >= 0);
            }
            return None;
        },
    };
    let mut f: u64 = 0;
    if fa < n {
        let d0: u32 = t.get_char(fa) as u32;
        proof {
            assert(t@.subrange(fa as int, n as int)[0] == t@[fa as int]);
        }
        f = ((d0 - 48) as u64) * 10;
        if fa + 1 < n {
            let d1: u32 = t.get_char(fa + 1) as u32;
            proof {
                assert(t@.subrange(fa as int, n as int)[1] == t@[fa + 1]);
            }
            f = f + ((d1 - 48) as u64);
        }
    }
    proof {
        let ghost fp = t@.subrange(fa as int, n as int);
        if fp.len() >= 1 {
            assert(fp[0] == t@[fa as int]);
        }
        if fp.len() >= 2 {
            assert(fp[1] == t@[fa + 1]);
        }
    }
    let total: u128 = (iv as u128) * 100 + (f as u128);
    if total > u64::MAX as u128 {
        return None;
    }
    Some(total as u64)
}

/// Which size a unit token selects for a given magnitude.
pub open spec fn unit_apply_spec(u: Seq<char>, v: u64) -> Option<PackageSize> {
    if u.len() == 1 && u[0] == 'B' {
        Some(PackageSize::Bytes(v))
    } else if u.len() == 3 && u[0] == 'K' && u[1] == 'i' && u[2] == 'B' {
        Some(PackageSize::KiB(v))
    } else if u.len() == 3 && u[0] == 'M' && u[1] == 'i' && u[2] == 'B' {
        Some(PackageSize::MiB(v))
    } else {
        None
    }
}

/// How a size field reads: the first whitespace token is the magnitude,
/// the second the unit; further tokens are ignored. The field does not
/// parse when either token is missing or malformed, or the magnitude
/// does not fit.
pub open spec fn size_from_str_spec(s: Seq<char>) -> Option<PackageSize> {
    let toks = tokens_spec(s);
    if toks.len() < 2 {
        None
    } else {
        match size_value_spec(toks[0]) {
            None => None,
            Some(w) => if 0 <= w <= u64::MAX {
                unit_apply_spec(toks[1], w as u64)
            } else {
                None
            },
        }
    }
}

impl PackageSize {
    /// Parse a size field, as `size_from_str_spec` states.
    pub fn from_str(s: &str) -> (r: Result<PackageSize, ()>)
        ensures
            match r {
                Ok(ps) => size_from_str_spec(s@) == Some(ps),
                Err(_) => size_from_str_spec(s@) is None,
            },
    {
        let toks: Vec<String> = split_ws(s);
        if toks.len() < 2 {
            return Err(());
        }
        proof {
            assert(toks@.map_values(|t: String| t@)[0] == toks@[0]@);
            assert(toks@.map_values(|t: String| t@)[1] == toks@[1]@);
        }
        let v: u64 = match parse_centi(toks[0].as_str()) {
            Some(v) => v,
            None => {
                return Err(());
            },
        };
        let u: &String = &toks[1];
        let un: usize = u.as_str().unicode_len();
        if un == 1 && u.as_str().get_char(0) == 'B' {
            Ok(PackageSize::Bytes(v))
        } else if un == 3 && u.as_str().get_char(0) == 'K' && u.as_str().get_char(1) == 'i'
            && u.as_str().get_char(2) == 'B' {
            Ok(PackageSize::KiB(v))
        } else if un == 3 && u.as_str().get_char(0) == 'M' && u.as_str().get_char(1) == 'i'
            && u.as_str().get_char(2) == 'B' {
            Ok(PackageSize::MiB(v))
        } else {
            Err(())
        }
    }
}

/// Split a space-separated string into package names: the whitespace
/// tokens of the string, in order.
pub fn sssv(s: String) -> (r: Vec<PackageName>)
    ensures
        r@.map_values(|p: PackageName| p@) == tokens_spec(s@),
{
    let toks: Vec<String> = split_ws(s.as_str());
    let mut out: Vec<PackageName> = Vec::new();
    let n: usize = toks.len();
    for i in 0..n
        invariant
            n == toks@.len(),
            toks@.map_values(|t: String| t@) == tokens_spec(s@),
            out@.len() == i,
            forall|j: int| 0 <= j < i ==> (#[trigger] out@[j])@ == toks@[j]@,
    {
        let t: String = toks[i].clone();
        out.push(PackageName(t));
    }
    proof {
        assert(out@.map_values(|p: PackageName| p@) =~= tokens_spec(s@));
    }
    out
}


/// A parse failure: a required structural field is absent or unreadable.
/// One malformed record fails only that record.
#[derive(Debug, Clone, Copy, PartialEq, Eq, Structural)]
pub enum ParseError {
    MissingName,
    MissingDepends,
    MissingRequiredBy,
    BadSize,
    BadOptionalDep,
}

/// The abstract content of a package record.
pub ghost struct PackageInfoView {
    pub depends: Seq<Seq<char>>,
    pub optional: Seq<(Seq<char>, Seq<char>)>,
    pub required_by: Seq<Seq<char>>,
    pub size: PackageSize,
    pub other: Map<Seq<char>, Seq<char>>,
}

/// A package record: its dependencies in declaration order, optional
/// dependencies with their reasons, reverse dependencies, installed size,
/// and every other reported field verbatim.
#[derive(Debug, Clone)]
pub struct PackageInfo {
    pub depends: Vec<PackageName>,
    pub optional: Vec<OptionalDep>,
    pub required_by: Vec<PackageName>,
    pub size: PackageSize,
    pub other: Vec<(String, String)>,
}

impl View for PackageInfo {
    type V = PackageInfoView;

    open spec fn view(&self) -> PackageInfoView {
        PackageInfoView {
            depends: self.depends@.map_values(|p: PackageName| p@),
            optional: self.optional@.map_values(|d: OptionalDep| d@),
            required_by: self.required_by@.map_values(|p: PackageName| p@),
            size: self.size,
            other: assoc_map(self.other@),
        }
    }
}

impl Default for PackageInfo {
    fn default() -> (r: Self)
        ensures
            r@.depends.len() == 0,
            r@.optional.len() == 0,
            r@.required_by.len() == 0,
            r@.size == PackageSize::Bytes(0u64),
            r@.other == Map::<Seq<char>, Seq<char>>::empty(),
    {
        PackageInfo {
            depends: Vec::new(),
            optional: Vec::new(),
            required_by: Vec::new(),
            size: PackageSize::Bytes(0),
            other: Vec::new(),
        }
    }
}

/// The key naming a record's package name.
pub open spec fn name_key() -> Seq<char> {
    seq!['N', 'a', 'm', 'e']
}

/// The key naming a record's dependency list.
pub open spec fn depends_key() -> Seq<char> {
    seq!['D', 'e', 'p', 'e', 'n', 'd', 's', ' ', 'O', 'n']
}

/// The key naming a record's reverse-dependency list.
pub open spec fn required_by_key() -> Seq<char> {
    seq!['R', 'e', 'q', 'u', 'i', 'r', 'e', 'd', ' ', 'B', 'y']
}

/// The key naming a record's installed size.
pub open spec fn size_key() -> Seq<char> {
    seq!['I', 'n', 's', 't', 'a', 'l', 'l', 'e', 'd', ' ', 'S', 'i', 'z', 'e']
}

/// The key introducing an optional-dependency line.
pub open spec fn optional_deps_key() -> Seq<char> {
    seq!['O', 'p', 't', 'i', 'o', 'n', 'a', 'l', ' ', 'D', 'e', 'p', 's']
}

/// A line with its trailing carriage return removed.
pub open spec fn strip_cr_spec(l: Seq<char>) -> Seq<char> {
    if l.len() > 0 && l.last() == '\r' {
        l.drop_last()
    } else {
        l
    }
}

/// The lines of a text, split on newlines, with `cur` the line read so
/// far. A trailing newline yields a final empty line, which the scan
/// ignores.
pub open spec fn lines_acc_spec(s: Seq<char>, cur: Seq<char>) -> Seq<Seq<char>>
    decreases s.len(),
{
    if s.len() == 0 {
        seq![strip_cr_spec(cur)]
    } else if s[0] == '\n' {
        seq![strip_cr_spec(cur)] + lines_acc_spec(s.drop_first(), Seq::empty())
    } else {
        lines_acc_spec(s.drop_first(), cur.push(s[0]))
    }
}

/// The lines of a text.
pub open spec fn lines_spec(s: Seq<char>) -> Seq<Seq<char>> {
    lines_acc_spec(s, Seq::empty())
}

/// Reading up to the first newline yields one line and the lines of the
/// rest.
proof fn lemma_lines_take(s: Seq<char>, cur: Seq<char>)
    ensures
        match find_char_spec(s, '\n') {
            Some(i) => lines_acc_spec(s, cur) == seq![strip_cr_spec(cur + s.take(i))]
                + lines_acc_spec(s.skip(i + 1), Seq::empty()),
            None => lines_acc_spec(s, cur) == seq![strip_cr_spec(cur + s)],
        },
    decreases s.len(),
{
    if s.len() == 0 {
        assert(cur + s =~= cur);
    } else if s[0] == '\n' {
        assert(cur + s.take(0) =~= cur);
        assert(s.skip(1) =~= s.drop_first());
    } else {
        lemma_lines_take(s.drop_first(), cur.push(s[0]));
        lemma_find_char_range(s, '\n');
        match find_char_spec(s, '\n') {
            Some(i) => {
                assert(find_char_spec(s.drop_first(), '\n') == Some(i - 1));
                assert(cur.push(s[0]) + s.drop_first().take(i - 1) =~= cur + s.take(i));
                assert(s.drop_first().skip(i) =~= s.skip(i + 1));
            },
            None => {
                assert(cur.push(s[0]) + s.drop_first() =~= cur + s);
            },
        }
    }
}

/// How one line changes the scan state: an empty line is skipped; a line
/// with a `" : "` separator binds its trimmed key to the value, except
/// that the exact key `Optional Deps` parses its value as an optional
/// dependency and fails the record when it cannot; any other line is a
/// continuation, kept when it reads as an optional dependency and
/// silently dropped otherwise.
pub open spec fn step_line_spec(
    m: Map<Seq<char>, Seq<char>>,
    opt: Seq<(Seq<char>, Seq<char>)>,
    l: Seq<char>,
) -> Result<(Map<Seq<char>, Seq<char>>, Seq<(Seq<char>, Seq<char>)>), ParseError> {
    if l.len() == 0 {
        Ok((m, opt))
    } else {
        match find_triple_spec(l, ' ', ':', ' ') {
            Some(i) => {
                let key = l.take(i);
                let v = l.skip(i + 3);
                if key == optional_deps_key() {
                    match optional_dep_spec(v) {
                        Some(d) => Ok((m, opt.push(d))),
                        None => Err(ParseError::BadOptionalDep),
                    }
                } else {
                    Ok((m.insert(trim_spec(key), v), opt))
                }
            },
            None => match optional_dep_spec(l) {
                Some(d) => Ok((m, opt.push(d))),
                None => Ok((m, opt)),
            },
        }
    }
}

/// The scan state after a sequence of lines.
pub open spec fn scan_lines_spec(
    ls: Seq<Seq<char>>,
    m: Map<Seq<char>, Seq<char>>,
    opt: Seq<(Seq<char>, Seq<char>)>,
) -> Result<(Map<Seq<char>, Seq<char>>, Seq<(Seq<char>, Seq<char>)>), ParseError>
    decreases ls.len(),
{
    if ls.len() == 0 {
        Ok((m, opt))
    } else {
        match step_line_spec(m, opt, ls[0]) {
            Err(e) => Err(e),
            Ok((m2, o2)) => scan_lines_spec(ls.drop_first(), m2, o2),
        }
    }
}

/// What one record's text denotes: the scan of its lines, with the four
/// structural fields extracted. The name is taken verbatim, dependency
/// lists split on whitespace, the size parsed; a missing or unreadable
/// structural field fails the record. Everything else stays in the
/// residual field map.
pub open spec fn parse_spec(s: Seq<char>) -> Result<(Seq<char>, PackageInfoView), ParseError> {
    match scan_lines_spec(lines_spec(s), Map::empty(), Seq::empty()) {
        Err(e) => Err(e),
        Ok((m, opt)) => {
            if !m.dom().contains(name_key()) {
                Err(ParseError::MissingName)
            } else if !m.dom().contains(depends_key()) {
                Err(ParseError::MissingDepends)
            } else if !m.dom().contains(required_by_key()) {
                Err(ParseError::MissingRequiredBy)
            } else if !m.dom().contains(size_key()) {
                Err(ParseError::BadSize)
            } else {
                match size_from_str_spec(m[size_key()]) {
                    None => Err(ParseError::BadSize),
                    Some(sz) => Ok(
                        (
                            m[name_key()],
                            PackageInfoView {
                                depends: tokens_spec(m[depends_key()]),
                                optional: opt,
                                required_by: tokens_spec(m[required_by_key()]),
                                size: sz,
                                other: m.remove(name_key()).remove(depends_key()).remove(
                                    required_by_key(),
                                ).remove(size_key()),
                            },
                        ),
                    ),
                }
            }
        },
    }
}

/// Apply one line to the scan state, as `step_line_spec` states: an empty
/// line is skipped, a keyed line binds or collects, a continuation line
/// is kept when it reads as an optional dependency.
fn scan_one_line(line: &str, other: &mut Vec<(String, String)>, optional: &mut Vec<OptionalDep>) -> (r: Result<(), ParseError>)
    requires
        keys_unique(old(other)@),
    ensures
        keys_unique(final(other)@),
        match r {
            Ok(_) => step_line_spec(
                assoc_map(old(other)@),
                old(optional)@.map_values(|d: OptionalDep| d@),
                line@,
            ) == Ok::<_, ParseError>(
                (assoc_map(final(other)@), final(optional)@.map_values(|d: OptionalDep| d@)),
            ),
            Err(e) => step_line_spec(
                assoc_map(old(other)@),
                old(optional)@.map_values(|d: OptionalDep| d@),
                line@,
            ) == Err::<(Map<Seq<char>, Seq<char>>, Seq<(Seq<char>, Seq<char>)>), ParseError>(e),
        },
{
    let ghost m0 = assoc_map(other@);
    let ghost o0 = optional@.map_values(|d: OptionalDep| d@);
    let line_len: usize = line.unicode_len();
    if line_len == 0 {
        return Ok(());
    }
    match find_triple_from(line, 0, ' ', ':', ' ') {
        Some(i) => {
            proof {
                assert(line@.skip(0) =~= line@);
            }
            let key_raw: &str = line.substring_char(0, i);
            let val: &str = line.substring_char(i + 3, line_len);
            proof {
                assert(key_raw@ =~= line@.take(i as int));
                assert(val@ =~= line@.skip(i + 3));
            }
            if crate::assoc::str_eq(key_raw, "Optional Deps") {
                proof {
                    reveal_strlit("Optional Deps");
                    assert("Optional Deps"@ =~= optional_deps_key());
                }
                match OptionalDep::from_str(val) {
                    Ok(d) => {
                        optional.push(d);
                        proof {
                            assert(optional@.map_values(|d: OptionalDep| d@) =~= o0.push(d@));
                        }
                        Ok(())
                    },
                    Err(_) => Err(ParseError::BadOptionalDep),
                }
            } else {
                proof {
                    reveal_strlit("Optional Deps");
                    assert("Optional Deps"@ =~= optional_deps_key());
                }
                let key_trimmed: &str = trim(key_raw);
                assoc_insert(other, key_trimmed.to_owned(), val.to_owned());
                Ok(())
            }
        },
        None => {
            proof {
                assert(line@.skip(0) =~= line@);
            }
            match OptionalDep::from_str(line) {
                Ok(d) => {
                    optional.push(d);
                    proof {
                        assert(optional@.map_values(|d: OptionalDep| d@) =~= o0.push(d@));
                    }
                },
                Err(_) => {},
            }
            Ok(())
        },
    }
}

impl PackageInfo {
    /// Parse one record, as `parse_spec` states.
    #[verifier::rlimit(80)]
    pub fn parse(s: &str) -> (r: Result<(String, PackageInfo), ParseError>)
        ensures
            match r {
                Ok((name, pi)) => parse_spec(s@) == Ok::<_, ParseError>((name@, pi@)),
                Err(e) => parse_spec(s@) == Err::<(Seq<char>, PackageInfoView), _>(e),
            },
    {
        let n: usize = s.unicode_len();
        let mut other: Vec<(String, String)> = Vec::new();
        let mut optional: Vec<OptionalDep> = Vec::new();
        let mut pos: usize = 0;
        let mut done: bool = false;
        proof {
            assert(s@.skip(0) =~= s@);
            assert(assoc_map(other@) =~= Map::<Seq<char>, Seq<char>>::empty());
            assert(optional@.map_values(|d: OptionalDep| d@) =~= Seq::<
                (Seq<char>, Seq<char>),
            >::empty());
        }
        while !done
            invariant
                pos <= n,
                n == s@.len(),
                keys_unique(other@),
                !done ==> scan_lines_spec(lines_spec(s@), Map::empty(), Seq::empty())
                    == scan_lines_spec(
                    lines_spec(s@.skip(pos as int)),
                    assoc_map(other@),
                    optional@.map_values(|d: OptionalDep| d@),
                ),
                done ==> scan_lines_spec(lines_spec(s@), Map::empty(), Seq::empty())
                    == Ok::<_, ParseError>(
                    (assoc_map(other@), optional@.map_values(|d: OptionalDep| d@)),
                ),
            decreases n - pos + (if done { 0int } else { 1int }),
        {
            let ghost m0 = assoc_map(other@);
            let ghost o0 = optional@.map_values(|d: OptionalDep| d@);
            let ghost rest = s@.skip(pos as int);
            let nl: Option<usize> = find_char_from(s, pos, '\n');
            let line_end: usize = match nl {
                Some(i) => i,
                None => n,
            };
            let content_end: usize = if line_end > pos && s.get_char(line_end - 1) == '\r' {
                line_end - 1
            } else {
                line_end
            };
            let line: &str = s.substring_char(pos, content_end);
            let ghost lseq = strip_cr_spec(rest.take(line_end - pos));
            proof {
                lemma_lines_take(rest, Seq::empty());
                assert(Seq::empty() + rest.take(line_end - pos) =~= rest.take(line_end - pos));
                assert(Seq::empty() + rest =~= rest);
                if pos < line_end {
                    assert(rest.take(line_end - pos).last() == s@[line_end - 1]);
                }
                if content_end < line_end {
                    assert(line@ =~= rest.take(line_end - pos).drop_last());
                } else {
                    assert(line@ =~= rest.take(line_end - pos));
                }
                assert(line@ == lseq);
                match nl {
                    Some(i) => {
                        assert(find_char_spec(rest, '\n') == Some(i - pos));
                        assert(rest.take(i - pos) == rest.take(line_end - pos));
                        assert(rest.skip(i - pos + 1) =~= s@.skip(i + 1));
                        assert(lines_spec(rest) == seq![lseq] + lines_spec(s@.skip(i + 1)));
                        assert((seq![lseq] + lines_spec(s@.skip(i + 1)))[0] == lseq);
                        assert((seq![lseq] + lines_spec(s@.skip(i + 1))).drop_first() =~= lines_spec(
                            s@.skip(i + 1),
                        ));
                    },
                    None => {
                        assert(find_char_spec(rest, '\n') is None);
                        assert(rest.take(line_end - pos) =~= rest);
                        assert(lines_spec(rest) == seq![lseq]);
                        assert(seq![lseq][0] == lseq);
                        assert(seq![lseq].drop_first() =~= Seq::<Seq<char>>::empty());
                    },
                }
            }
            match scan_one_line(line, &mut other, &mut optional) {
                Ok(_) => {},
                Err(e) => {
                    proof {
                        assert(scan_lines_spec(lines_spec(rest), m0, o0) == Err::<
                            (Map<Seq<char>, Seq<char>>, Seq<(Seq<char>, Seq<char>)>),
                            ParseError,
                        >(e));
                    }
                    return Err(e);
                },
            }
            let ghost m1 = assoc_map(other@);
            let ghost o1 = optional@.map_values(|d: OptionalDep| d@);
            proof {
                assert(step_line_spec(m0, o0, lseq) == Ok::<
                    (Map<Seq<char>, Seq<char>>, Seq<(Seq<char>, Seq<char>)>),
                    ParseError,
                >((m1, o1)));
                match nl {
                    Some(i) => {
                        assert(scan_lines_spec(lines_spec(rest), m0, o0) == scan_lines_spec(
                            lines_spec(s@.skip(i + 1)),
                            m1,
                            o1,
                        ));
                    },
                    None => {
                        assert(scan_lines_spec(Seq::<Seq<char>>::empty(), m1, o1) == Ok::<
                            (Map<Seq<char>, Seq<char>>, Seq<(Seq<char>, Seq<char>)>),
                            ParseError,
                        >((m1, o1)));
                        assert(scan_lines_spec(lines_spec(rest), m0, o0) == Ok::<
                            (Map<Seq<char>, Seq<char>>, Seq<(Seq<char>, Seq<char>)>),
                            ParseError,
                        >((m1, o1)));
                    },
                }
            }
            match nl {
                Some(i) => {
                    pos = i + 1;
                },
                None => {
                    done = true;
                },
            }
        }
        let name: String = match assoc_remove(&mut other, "Name") {
            Some(v) => v,
            None => {
                proof {
                    reveal_strlit("Name");
                    assert("Name"@ =~= name_key());
                }
                return Err(ParseError::MissingName);
            },
        };
        proof {
            reveal_strlit("Name");
            assert("Name"@ =~= name_key());
        }
        let dep_s: String = match assoc_remove(&mut other, "Depends On") {
            Some(v) => v,
            None => {
                proof {
                    reveal_strlit("Depends On");
                    assert("Depends On"@ =~= depends_key());
                }
                return Err(ParseError::MissingDepends);
            },
        };
        proof {
            reveal_strlit("Depends On");
            assert("Depends On"@ =~= depends_key());
        }
        let req_s: String = match assoc_remove(&mut other, "Required By") {
            Some(v) => v,
            None => {
                proof {
                    reveal_strlit("Required By");
                    assert("Required By"@ =~= required_by_key());
                }
                return Err(ParseError::MissingRequiredBy);
            },
        };
        proof {
            reveal_strlit("Required By");
            assert("Required By"@ =~= required_by_key());
        }
        let size_s: String = match assoc_remove(&mut other, "Installed Size") {
            Some(v) => v,
            None => {
                proof {
                    reveal_strlit("Installed Size");
                    assert("Installed Size"@ =~= size_key());
                }
                return Err(ParseError::BadSize);
            },
        };
        proof {
            reveal_strlit("Installed Size");
            assert("Installed Size"@ =~= size_key());
        }
        let size: PackageSize = match PackageSize::from_str(size_s.as_str()) {
            Ok(sz) => sz,
            Err(_) => {
                return Err(ParseError::BadSize);
            },
        };
        let depends: Vec<PackageName> = sssv(dep_s);
        let required_by: Vec<PackageName> = sssv(req_s);
        let pi = PackageInfo { depends, optional, required_by, size, other };
        Ok((name, pi))
    }
}

/// The segments of a report, split on blank lines, with `cur` the segment
/// read so far.
pub open spec fn segments_acc_spec(s: Seq<char>, cur: Seq<char>) -> Seq<Seq<char>>
    decreases s.len(),
{
    if s.len() == 0 {
        seq![cur]
    } else if s.len() >= 2 && s[0] == '\n' && s[1] == '\n' {
        seq![cur] + segments_acc_spec(s.skip(2), Seq::empty())
    } else {
        segments_acc_spec(s.drop_first(), cur.push(s[0]))
    }
}

/// The segments of a report, split on blank lines.
pub open spec fn segments_spec(s: Seq<char>) -> Seq<Seq<char>> {
    segments_acc_spec(s, Seq::empty())
}

/// Reading up to the first blank line yields one segment and the
/// segments of the rest.
proof fn lemma_segments_take(s: Seq<char>, cur: Seq<char>)
    ensures
        match find_pair_spec(s, '\n', '\n') {
            Some(i) => segments_acc_spec(s, cur) == seq![cur + s.take(i)] + segments_acc_spec(
                s.skip(i + 2),
                Seq::empty(),
            ),
            None => segments_acc_spec(s, cur) == seq![cur + s],
        },
    decreases s.len(),
{
    if s.len() == 0 {
        assert(cur + s =~= cur);
    } else if s.len() >= 2 && s[0] == '\n' && s[1] == '\n' {
        assert(cur + s.take(0) =~= cur);
    } else {
        lemma_segments_take(s.drop_first(), cur.push(s[0]));
        lemma_find_pair_range(s, '\n', '\n');
        match find_pair_spec(s, '\n', '\n') {
            Some(i) => {
                assert(find_pair_spec(s.drop_first(), '\n', '\n') == Some(i - 1));
                assert(cur.push(s[0]) + s.drop_first().take(i - 1) =~= cur + s.take(i));
                assert(s.drop_first().skip(i + 1) =~= s.skip(i + 2));
            },
            None => {
                assert(cur.push(s[0]) + s.drop_first() =~= cur + s);
            },
        }
    }
}

/// The record map a sequence of segments denotes: each segment that
/// parses binds its name to its record, later segments overwriting
/// earlier ones; segments that do not parse are skipped.
pub open spec fn records_acc_spec(
    segs: Seq<Seq<char>>,
    m: Map<Seq<char>, PackageInfoView>,
) -> Map<Seq<char>, PackageInfoView>
    decreases segs.len(),
{
    if segs.len() == 0 {
        m
    } else {
        let m2 = match parse_spec(segs[0]) {
            Ok((nm, v)) => m.insert(nm, v),
            Err(_) => m,
        };
        records_acc_spec(segs.drop_first(), m2)
    }
}

/// What a whole report denotes: the records of its blank-line-separated
/// segments, after trimming surrounding whitespace.
pub open spec fn parse_all_spec(s: Seq<char>) -> Map<Seq<char>, PackageInfoView> {
    records_acc_spec(segments_spec(trim_spec(s)), Map::empty())
}

/// Parse the concatenated report of every package, as `parse_all_spec`
/// states: a mapping from package name to record, one entry per name.
#[verifier::rlimit(80)]
pub fn parse_all(s: &str) -> (r: Vec<(String, PackageInfo)>)
    ensures
        keys_unique(r@),
        assoc_map(r@) == parse_all_spec(s@),
{
    let t: &str = trim(s);
    let n: usize = t.unicode_len();
    let mut out: Vec<(String, PackageInfo)> = Vec::new();
    let mut pos: usize = 0;
    let mut done: bool = false;
    proof {
        assert(t@.skip(0) =~= t@);
        assert(assoc_map(out@) =~= Map::<Seq<char>, PackageInfoView>::empty());
    }
    while !done
        invariant
            pos <= n,
            n == t@.len(),
            t@ == trim_spec(s@),
            keys_unique(out@),
            !done ==> parse_all_spec(s@) == records_acc_spec(
                segments_spec(t@.skip(pos as int)),
                assoc_map(out@),
            ),
            done ==> parse_all_spec(s@) == assoc_map(out@),
        decreases n - pos + (if done { 0int } else { 1int }),
    {
        let ghost m0 = assoc_map(out@);
        let ghost rest = t@.skip(pos as int);
        let sep: Option<usize> = find_pair_from(t, pos, '\n', '\n');
        let seg_end: usize = match sep {
            Some(i) => i,
            None => n,
        };
        let seg: &str = t.substring_char(pos, seg_end);
        proof {
            lemma_segments_take(rest, Seq::empty());
            assert(Seq::empty() + rest.take(seg_end - pos) =~= rest.take(seg_end - pos));
            assert(Seq::empty() + rest =~= rest);
            assert(seg@ =~= rest.take(seg_end - pos));
            match sep {
                Some(i) => {
                    assert(find_pair_spec(rest, '\n', '\n') == Some(i - pos));
                    assert(rest.skip(i - pos + 2) =~= t@.skip(i + 2));
                    assert(segments_spec(rest) == seq![seg@] + segments_spec(t@.skip(i + 2)));
                    assert((seq![seg@] + segments_spec(t@.skip(i + 2)))[0] == seg@);
                    assert((seq![seg@] + segments_spec(t@.skip(i + 2))).drop_first()
                        =~= segments_spec(t@.skip(i + 2)));
                },
                None => {
                    assert(find_pair_spec(rest, '\n', '\n') is None);
                    assert(rest.take(seg_end - pos) =~= rest);
                    assert(segments_spec(rest) == seq![seg@]);
                    assert(seq![seg@][0] == seg@);
                    assert(seq![seg@].drop_first() =~= Seq::<Seq<char>>::empty());
                },
            }
        }
        match PackageInfo::parse(seg) {
            Ok((nm, pi)) => {
                assoc_insert(&mut out, nm, pi);
            },
            Err(_) => {},
        }
        let ghost m1 = assoc_map(out@);
        proof {
            match sep {
                Some(i) => {
                    assert(records_acc_spec(segments_spec(rest), m0) == records_acc_spec(
                        segments_spec(t@.skip(i + 2)),
                        m1,
                    ));
                },
                None => {
                    assert(records_acc_spec(Seq::<Seq<char>>::empty(), m1) == m1);
                    assert(records_acc_spec(segments_spec(rest), m0) == m1);
                },
            }
        }
        match sep {
            Some(i) => {
                pos = i + 2;
            },
            None => {
                done = true;
            },
        }
    }
    out
}

/// Whether a query's output begins with the error marker.
pub open spec fn query_error_marked(s: Seq<char>) -> bool {
    s.len() >= 6 && s[0] == 'e' && s[1] == 'r' && s[2] == 'r' && s[3] == 'o' && s[4] == 'r' && s[5]
        == ':'
}

/// Classify one query's captured output: empty output and output carrying
/// the error marker mean the package is absent; otherwise the output is
/// parsed, and a record that does not parse yields nothing.
pub fn interpret_query_output(out: &str) -> (r: Option<(String, PackageInfo)>)
    ensures
        out@.len() == 0 ==> r is None,
        query_error_marked(out@) ==> r is None,
        out@.len() > 0 && !query_error_marked(out@) ==> match r {
            Some((nm, pi)) => parse_spec(out@) == Ok::<_, ParseError>((nm@, pi@)),
            None => parse_spec(out@) is Err,
        },
{
    let n: usize = out.unicode_len();
    if n == 0 {
        return None;
    }
    if n >= 6 && out.get_char(0) == 'e' && out.get_char(1) == 'r' && out.get_char(2) == 'r'
        && out.get_char(3) == 'o' && out.get_char(4) == 'r' && out.get_char(5) == ':' {
        return None;
    }
    match PackageInfo::parse(out) {
        Ok(p) => Some(p),
        Err(_) => None,
    }
}

} // verus!
