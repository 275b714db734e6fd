use vstd::prelude::*;
use vstd::string::{StrSliceExecFns, StringExecFns};

use crate::achive::{views_of, Achivement};
use crate::difficulty::{key_of, kind_of_key, lower_of, DifficultyKind};

verus! {

/// Separator of the fields of a ledger line.
pub const SEP: char = ',';

/// Why the ledger could not be written or read.
#[derive(Debug, Clone, Copy, PartialEq, Eq, Structural)]
pub enum AchivementError {
    /// A user name holds the field separator
    SeparatorInUsername,
    /// A line does not hold exactly three fields
    FieldCount,
    /// The difficulty field names no difficulty
    InvalidDifficulty,
    /// The score field is not a number
    InvalidScore,
}

impl AchivementError {
    pub fn message(&self) -> (r: &'static str)
        ensures
            r@ == error_message(*self),
    {
        match self {
            AchivementError::SeparatorInUsername => "username cannot contain ,",
            AchivementError::FieldCount => "unexpected elements count in entry",
            AchivementError::InvalidDifficulty => "invalid difficulty",
            AchivementError::InvalidScore => "invalid score",
        }
    }
}

pub open spec fn error_message(e: AchivementError) -> Seq<char> {
    match e {
        AchivementError::SeparatorInUsername => "username cannot contain ,"@,
        AchivementError::FieldCount => "unexpected elements count in entry"@,
        AchivementError::InvalidDifficulty => "invalid difficulty"@,
        AchivementError::InvalidScore => "invalid score"@,
    }
}

/// Two records are for the same user and difficulty.
pub open spec fn same_slot(a: Achivement, b: Achivement) -> bool {
    a.username@ == b.username@ && a.difficulty == b.difficulty
}

/// `i` is the first index of `list` that holds a record for the slot of `a`.
pub open spec fn is_first_slot(list: Seq<Achivement>, a: Achivement, i: int) -> bool {
    &&& 0 <= i < list.len()
    &&& same_slot(list[i], a)
    &&& forall|j: int| 0 <= j < i ==> !same_slot(#[trigger] list[j], a)
}

/// `list` with `a` put in place of the first record of its slot, or appended
/// when its slot has none.
pub open spec fn with_record(list: Seq<Achivement>, a: Achivement) -> Seq<Achivement> {
    if exists|i: int| is_first_slot(list, a, i) {
        list.update(choose|i: int| is_first_slot(list, a, i), a)
    } else {
        list.push(a)
    }
}

/// The ledger already holds a score for the slot of `a` at least as high.
pub open spec fn no_better(list: Seq<Achivement>, a: Achivement) -> bool {
    exists|i: int| is_first_slot(list, a, i) && list[i].score >= a.score
}

/// Position of a difficulty in the declared order.
pub open spec fn rank(d: DifficultyKind) -> int {
    match d {
        DifficultyKind::Easy => 0,
        DifficultyKind::Normal => 1,
        DifficultyKind::Medium => 2,
        DifficultyKind::Hard => 3,
        DifficultyKind::Impossible => 4,
        DifficultyKind::Secret => 5,
    }
}

/// Lexicographic order of character sequences from position `i` on, by code point.
pub open spec fn lt_from(a: Seq<char>, b: Seq<char>, i: int) -> bool
    decreases b.len() - i,
{
    if i < 0 || i >= b.len() {
        false
    } else if i >= a.len() {
        true
    } else if a[i] != b[i] {
        (a[i] as u32) < (b[i] as u32)
    } else {
        lt_from(a, b, i + 1)
    }
}

/// `a` comes strictly before `b` in lexicographic order.
pub open spec fn seq_lt(a: Seq<char>, b: Seq<char>) -> bool {
    lt_from(a, b, 0)
}

/// `a` comes strictly before `b`: by user name, then by difficulty.
pub open spec fn key_lt(a: Achivement, b: Achivement) -> bool {
    seq_lt(a.username@, b.username@) || (a.username@ == b.username@ && rank(a.difficulty) < rank(
        b.difficulty,
    ))
}

/// No record comes strictly before any record ahead of it.
pub open spec fn sorted(s: Seq<Achivement>) -> bool {
    forall|i: int, j: int| 0 <= i < j < s.len() ==> !key_lt(#[trigger] s[j], #[trigger] s[i])
}

proof fn lemma_lt_from_trans(a: Seq<char>, b: Seq<char>, c: Seq<char>, i: int)
    requires
        lt_from(a, b, i),
        lt_from(b, c, i),
    ensures
        lt_from(a, c, i),
    decreases c.len() - i,
{
    if 0 <= i < c.len() && i < b.len() && i < a.len() && a[i] == b[i] && b[i] == c[i] {
        lemma_lt_from_trans(a, b, c, i + 1);
    }
}

/// The order of records is transitive.
proof fn lemma_key_lt_trans(a: Achivement, b: Achivement, c: Achivement)
    requires
        key_lt(a, b),
        key_lt(b, c),
    ensures
        key_lt(a, c),
{
    if seq_lt(a.username@, b.username@) && seq_lt(b.username@, c.username@) {
        lemma_lt_from_trans(a.username@, b.username@, c.username@, 0);
    }
}

proof fn lemma_lt_from_asym(a: Seq<char>, b: Seq<char>, i: int)
    requires
        lt_from(a, b, i),
    ensures
        !lt_from(b, a, i),
    decreases b.len() - i,
{
    if 0 <= i < b.len() && i < a.len() && a[i] == b[i] {
        lemma_lt_from_asym(a, b, i + 1);
    }
}

/// The order of records is asymmetric.
proof fn lemma_key_lt_asym(a: Achivement, b: Achivement)
    requires
        key_lt(a, b),
    ensures
        !key_lt(b, a),
{
    if seq_lt(a.username@, b.username@) {
        lemma_lt_from_asym(a.username@, b.username@, 0);
        if a.username@ == b.username@ {
            lemma_lt_from_irrefl(a.username@, 0);
        }
    }
}

proof fn lemma_lt_from_irrefl(a: Seq<char>, i: int)
    ensures
        !lt_from(a, a, i),
    decreases a.len() - i,
{
    if 0 <= i < a.len() {
        lemma_lt_from_irrefl(a, i + 1);
    }
}

/// Whether `a` comes lexicographically before `b`.
fn str_less(a: &String, b: &String) -> (r: bool)
    ensures
        r == seq_lt(a@, b@),
{
    let sa = a.as_str();
    let sb = b.as_str();
    let la = sa.unicode_len();
    let lb = sb.unicode_len();
    let mut i: usize = 0;
    while i < lb
        invariant
            sa@ == a@,
            sb@ == b@,
            lb == b@.len(),
            la == a@.len(),
            0 <= i <= lb,
            seq_lt(a@, b@) == lt_from(a@, b@, i as int),
        decreases lb - i,
    {
        if i >= la {
            assert(lt_from(a@, b@, i as int));
            return true;
        }
        let ca = sa.get_char(i);
        let cb = sb.get_char(i);
        if ca != cb {
            assert(lt_from(a@, b@, i as int) == ((ca as u32) < (cb as u32)));
            return (ca as u32) < (cb as u32);
        }
        assert(lt_from(a@, b@, i as int) == lt_from(a@, b@, i + 1));
        i += 1;
    }
    false
}

fn rank_of(d: DifficultyKind) -> (r: u8)
    ensures
        r == rank(d),
{
    match d {
        DifficultyKind::Easy => 0,
        DifficultyKind::Normal => 1,
        DifficultyKind::Medium => 2,
        DifficultyKind::Hard => 3,
        DifficultyKind::Impossible => 4,
        DifficultyKind::Secret => 5,
    }
}

/// Whether `a` comes strictly before `b`.
fn key_less(a: &Achivement, b: &Achivement) -> (r: bool)
    ensures
        r == key_lt(*a, *b),
{
    if str_less(&a.username, &b.username) {
        return true;
    }
    a.username == b.username && rank_of(a.difficulty) < rank_of(b.difficulty)
}

/// The records of `list` ordered by user name, then difficulty.
pub fn sort_achivements(list: Vec<Achivement>) -> (r: Vec<Achivement>)
    ensures
        sorted(r@),
        r@.to_multiset() == list@.to_multiset(),
{
    broadcast use vstd::seq_lib::group_to_multiset_ensures;

    let mut out: Vec<Achivement> = Vec::new();
    let mut i: usize = 0;
    while i < list.len()
        invariant
            i <= list@.len(),
            sorted(out@),
            out@.to_multiset() == list@.subrange(0, i as int).to_multiset(),
        decreases list@.len() - i,
    {
        let x = list[i].cloned();
        let mut p: usize = 0;
        while p < out.len() && !key_less(&x, &out[p])
            invariant
                p <= out@.len(),
                forall|q: int| 0 <= q < p ==> !key_lt(x, #[trigger] out@[q]),
            decreases out@.len() - p,
        {
            p += 1;
        }
        let ghost before = out@;
        out.insert(p, x);
        proof {
            assert forall|a: int, b: int| 0 <= a < b < out@.len() implies !key_lt(
                #[trigger] out@[b],
                #[trigger] out@[a],
            ) by {
                if b < p {
                    assert(out@[a] == before[a] && out@[b] == before[b]);
                } else if b == p {
                    assert(out@[b] == x && out@[a] == before[a]);
                    assert(!key_lt(x, before[a]));
                } else if a < p {
                    assert(out@[a] == before[a] && out@[b] == before[b - 1]);
                } else if a == p {
                    assert(out@[a] == x && out@[b] == before[b - 1]);
                    assert(key_lt(x, before[p as int]));
                    if key_lt(before[b - 1], x) {
                        if b - 1 == p {
                            lemma_key_lt_asym(x, before[p as int]);
                        } else {
                            lemma_key_lt_trans(before[b - 1], x, before[p as int]);
                            assert(!key_lt(before[b - 1], before[p as int]));
                        }
                    }
                } else {
                    assert(out@[a] == before[a - 1] && out@[b] == before[b - 1]);
                }
            }
            assert(out@ == before.insert(p as int, x));
            vstd::seq_lib::to_multiset_insert(before, p as int, x);
            vstd::seq_lib::to_multiset_build(list@.subrange(0, i as int), list@[i as int]);
            assert(list@.subrange(0, i + 1) =~= list@.subrange(0, i as int).push(list@[i as int]));
        }
        i += 1;
    }
    assert(list@.subrange(0, i as int) =~= list@);
    out
}

/// Relies on String::push: appends the character `c` to `s`.
#[verifier::external_body]
fn push_char(s: &mut String, c: char)
    ensures
        final(s)@ == old(s)@.push(c),
{
    s.push(c)
}

/// The decimal digit for `d`, which is below ten.
pub open spec fn digit(d: nat) -> char {
    if d == 0 {
        '0'
    } else if d == 1 {
        '1'
    } else if d == 2 {
        '2'
    } else if d == 3 {
        '3'
    } else if d == 4 {
        '4'
    } else if d == 5 {
        '5'
    } else if d == 6 {
        '6'
    } else if d == 7 {
        '7'
    } else if d == 8 {
        '8'
    } else {
        '9'
    }
}

/// The decimal notation of `n`, without leading zeros.
pub open spec fn decimal(n: nat) -> Seq<char>
    decreases n,
{
    if n < 10 {
        seq![digit(n)]
    } else {
        decimal(n / 10).push(digit(n % 10))
    }
}

fn digit_char(d: usize) -> (r: char)
    requires
        d < 10,
    ensures
        r == digit(d as nat),
{
    match d {
        0 => '0',
        1 => '1',
        2 => '2',
        3 => '3',
        4 => '4',
        5 => '5',
        6 => '6',
        7 => '7',
        8 => '8',
        _ => '9',
    }
}

/// Appends the decimal notation of `n` to `s`.
fn push_decimal(s: &mut String, n: usize)
    ensures
        final(s)@ == old(s)@ + decimal(n as nat),
    decreases n,
{
    if n >= 10 {
        push_decimal(s, n / 10);
    }
    push_char(s, digit_char(n % 10));
    proof {
        assert(old(s)@ + decimal(n as nat) =~= if n >= 10 {
            old(s)@ + decimal((n / 10) as nat)
        } else {
            old(s)@
        }.push(digit((n % 10) as nat)));
    }
}

/// The first line of the ledger.
pub open spec fn header() -> Seq<char> {
    "username,difficulty,score"@
}

/// One line of the ledger: user, lower-case difficulty and score, separated
/// by commas.
pub open spec fn row_of(a: Achivement) -> Seq<char> {
    a.username@ + seq![SEP] + key_of(a.difficulty) + seq![SEP] + decimal(a.score as nat) + seq![
        '\n',
    ]
}

/// The lines of a list of records.
pub open spec fn rows_of(s: Seq<Achivement>) -> Seq<char>
    decreases s.len(),
{
    if s.len() == 0 {
        Seq::empty()
    } else {
        rows_of(s.drop_last()) + row_of(s.last())
    }
}

/// The whole ledger text of a list of records.
pub open spec fn csv_of(s: Seq<Achivement>) -> Seq<char> {
    header() + seq!['\n'] + rows_of(s)
}

/// Some record of `s` has a user name that holds the separator.
pub open spec fn any_sep(s: Seq<Achivement>) -> bool {
    exists|x: Achivement| s.contains(x) && #[trigger] x.username@.contains(SEP)
}

fn achivements_header() -> (r: &'static str)
    ensures
        r@ == header(),
{
    "username,difficulty,score"
}

/// Whether `s` holds the separator.
fn has_sep(s: &String) -> (r: bool)
    ensures
        r == s@.contains(SEP),
{
    let t = s.as_str();
    let n = t.unicode_len();
    let mut i: usize = 0;
    while i < n
        invariant
            t@ == s@,
            n == s@.len(),
            i <= n,
            forall|j: int| 0 <= j < i ==> s@[j] != SEP,
        decreases n - i,
    {
        if t.get_char(i) == SEP {
            return true;
        }
        i += 1;
    }
    false
}

/// The ledger text of `achivements`, or an error when a user name holds the
/// separator.
pub fn achivements_csv(achivements: &[Achivement]) -> (r: Result<String, AchivementError>)
    ensures
        match r {
            Ok(text) => !any_sep(achivements@) && text@ == csv_of(achivements@),
            Err(e) => any_sep(achivements@) && e == AchivementError::SeparatorInUsername,
        },
{
    let mut text = String::new();
    text.append(achivements_header());
    push_char(&mut text, '\n');
    let mut i: usize = 0;
    while i < achivements.len()
        invariant
            i <= achivements@.len(),
            text@ == header() + seq!['\n'] + rows_of(achivements@.subrange(0, i as int)),
            forall|k: int| 0 <= k < i ==> !(#[trigger] achivements@[k]).username@.contains(SEP),
        decreases achivements@.len() - i,
    {
        let a = &achivements[i];
        if has_sep(&a.username) {
            assert(achivements@.contains(achivements@[i as int]));
            return Err(AchivementError::SeparatorInUsername);
        }
        let ghost before = text@;
        text.append(a.username.as_str());
        push_char(&mut text, SEP);
        text.append(a.difficulty.key());
        push_char(&mut text, SEP);
        push_decimal(&mut text, a.score);
        push_char(&mut text, '\n');
        proof {
            let sub = achivements@.subrange(0, i + 1);
            assert(sub.drop_last() =~= achivements@.subrange(0, i as int));
            assert(text@ =~= before + row_of(achivements@[i as int]));
            assert(text@ =~= header() + seq!['\n'] + rows_of(sub));
        }
        i += 1;
    }
    proof {
        assert(achivements@.subrange(0, i as int) =~= achivements@);
        if any_sep(achivements@) {
            let x = choose|x: Achivement| achivements@.contains(x) && x.username@.contains(SEP);
            let k = choose|k: int| 0 <= k < achivements@.len() && achivements@[k] == x;
        }
    }
    Ok(text)
}

/// The index of the first record for the slot of `a`, if any.
fn first_slot(list: &[Achivement], a: &Achivement) -> (r: Option<usize>)
    ensures
        match r {
            Some(i) => is_first_slot(list@, *a, i as int),
            None => !exists|i: int| is_first_slot(list@, *a, i),
        },
{
    let mut i: usize = 0;
    while i < list.len()
        invariant
            i <= list@.len(),
            forall|j: int| 0 <= j < i ==> !same_slot(#[trigger] list@[j], *a),
        decreases list@.len() - i,
    {
        if list[i].username == a.username && list[i].difficulty == a.difficulty {
            return Some(i);
        }
        i += 1;
    }
    None
}

/// Records the score `achivement` in the ledger `achivements`.
///
/// When the ledger already holds a score at least as high for the same user
/// and difficulty, nothing is to be written: `Ok(None)`. Otherwise the new
/// score takes the place of the old one, or is added; the ledger comes back
/// ordered by user and difficulty, with the text to store, or an error when
/// a user name holds the separator.
pub fn save_achivement(achivements: &[Achivement], achivement: Achivement) -> (r: Result<
    Option<(Vec<Achivement>, String)>,
    AchivementError,
>)
    ensures
        no_better(achivements@, achivement) ==> r == Ok::<
            Option<(Vec<Achivement>, String)>,
            AchivementError,
        >(None),
        !no_better(achivements@, achivement) ==> match r {
            Ok(Some((list, text))) => {
                &&& sorted(list@)
                &&& list@.to_multiset() == with_record(achivements@, achivement).to_multiset()
                &&& !any_sep(with_record(achivements@, achivement))
                &&& text@ == csv_of(list@)
            },
            Ok(None) => false,
            Err(e) => {
                &&& any_sep(with_record(achivements@, achivement))
                &&& e == AchivementError::SeparatorInUsername
            },
        },
{
    let ind = first_slot(achivements, &achivement);
    if let Some(i) = ind {
        if achivements[i].score >= achivement.score {
            return Ok(None);
        }
    }
    let mut list: Vec<Achivement> = Vec::new();
    let mut k: usize = 0;
    while k < achivements.len()
        invariant
            k <= achivements@.len(),
            list@ == achivements@.subrange(0, k as int),
        decreases achivements@.len() - k,
    {
        list.push(achivements[k].cloned());
        k += 1;
    }
    assert(list@ =~= achivements@);
    match ind {
        Some(i) => {
            list.set(i, achivement);
        },
        None => {
            list.push(achivement);
        },
    }
    let ghost updated = list@;
    assert(updated == with_record(achivements@, achivement));
    let list = sort_achivements(list);
    proof {
        if any_sep(list@) {
            lemma_any_sep_permutation(list@, updated);
        }
        if any_sep(updated) {
            lemma_any_sep_permutation(updated, list@);
        }
    }
    match achivements_csv(list.as_slice()) {
        Ok(text) => Ok(Some((list, text))),
        Err(e) => Err(e),
    }
}

/// A permutation of a list with a separator in some user name has one too.
proof fn lemma_any_sep_permutation(s: Seq<Achivement>, t: Seq<Achivement>)
    requires
        s.to_multiset() == t.to_multiset(),
        any_sep(s),
    ensures
        any_sep(t),
{
    broadcast use vstd::seq_lib::group_to_multiset_ensures;

    let x = choose|x: Achivement| s.contains(x) && x.username@.contains(SEP);
    assert(s.to_multiset().count(x) > 0);
    assert(t.contains(x));
}

/// A character with the Unicode property White_Space, as `char::is_whitespace`
/// tells it.
pub open spec fn is_white_space(c: char) -> bool {
    let u = c as u32;
    (0x09 <= u && u <= 0x0d) || u == 0x20 || u == 0x85 || u == 0xa0 || u == 0x1680 || (0x2000
        <= u && u <= 0x200a) || u == 0x2028 || u == 0x2029 || u == 0x202f || u == 0x205f || u
        == 0x3000
}

/// `s` without its leading white space.
pub open spec fn trim_start(s: Seq<char>) -> Seq<char>
    decreases s.len(),
{
    if s.len() > 0 && is_white_space(s[0]) {
        trim_start(s.drop_first())
    } else {
        s
    }
}

/// `s` without its trailing white space.
pub open spec fn trim_end(s: Seq<char>) -> Seq<char>
    decreases s.len(),
{
    if s.len() > 0 && is_white_space(s.last()) {
        trim_end(s.drop_last())
    } else {
        s
    }
}

/// `s` without leading and trailing white space.
pub open spec fn trimmed(s: Seq<char>) -> Seq<char> {
    trim_end(trim_start(s))
}

/// Relies on str::trim: the string without its leading and trailing
/// characters that have the Unicode property White_Space.
#[verifier::external_body]
fn trim(s: &str) -> (r: String)
    ensures
        r@ == trimmed(s@),
{
    s.trim().to_owned()
}

/// The value of a non-empty run of decimal digits.
pub open spec fn digits_value(ds: Seq<char>) -> nat
    decreases ds.len(),
{
    if ds.len() == 0 {
        0
    } else {
        digits_value(ds.drop_last()) * 10 + ((ds.last() as u32) - ('0' as u32)) as nat
    }
}

pub open spec fn is_digit(c: char) -> bool {
    '0' <= c && c <= '9'
}

/// The number a string denotes as `usize::from_str` reads it: an optional
/// `+` and at least one decimal digit, with a value that fits in `usize`.
pub open spec fn usize_of(s: Seq<char>) -> Option<usize> {
    let ds = if s.len() > 0 && s[0] == '+' {
        s.drop_first()
    } else {
        s
    };
    if ds.len() > 0 && (forall|i: int| 0 <= i < ds.len() ==> is_digit(#[trigger] ds[i]))
        && digits_value(ds) <= usize::MAX {
        Some(digits_value(ds) as usize)
    } else {
        None
    }
}

/// Relies on usize::from_str: an optional `+` followed by decimal digits is
/// read as its value, unless that exceeds `usize::MAX`; anything else fails.
#[verifier::external_body]
fn parse_usize(s: &str) -> (r: Option<usize>)
    ensures
        r == usize_of(s@),
{
    s.parse::<usize>().ok()
}

/// The pieces of `s` between occurrences of `c`: one more than there are
/// occurrences.
pub open spec fn split_on(s: Seq<char>, c: char) -> Seq<Seq<char>>
    decreases s.len(),
{
    if s.len() == 0 {
        seq![Seq::empty()]
    } else {
        let init = split_on(s.drop_last(), c);
        if s.last() == c {
            init.push(Seq::empty())
        } else {
            init.update(init.len() - 1, init.last().push(s.last()))
        }
    }
}

proof fn lemma_split_on_nonempty(s: Seq<char>, c: char)
    ensures
        split_on(s, c).len() >= 1,
    decreases s.len(),
{
    if s.len() > 0 {
        lemma_split_on_nonempty(s.drop_last(), c);
    }
}

/// Splits `s` at each occurrence of `c`.
pub fn split_at_char(s: &str, c: char) -> (r: Vec<String>)
    ensures
        views_of(r@) == split_on(s@, c),
{
    let n = s.unicode_len();
    let mut done: Vec<String> = Vec::new();
    let mut cur = String::new();
    let mut i: usize = 0;
    while i < n
        invariant
            n == s@.len(),
            i <= n,
            views_of(done@).push(cur@) == split_on(s@.subrange(0, i as int), c),
        decreases n - i,
    {
        let ch = s.get_char(i);
        proof {
            let t = s@.subrange(0, i + 1);
            assert(t.drop_last() =~= s@.subrange(0, i as int));
            lemma_split_on_nonempty(s@.subrange(0, i as int), c);
        }
        let ghost old_done = views_of(done@);
        let ghost old_cur = cur@;
        if ch == c {
            done.push(cur);
            cur = String::new();
            assert(views_of(done@) =~= old_done.push(old_cur));
        } else {
            push_char(&mut cur, ch);
            assert(views_of(done@).push(cur@) =~= old_done.push(old_cur).update(
                old_done.len() as int,
                old_cur.push(ch),
            ));
        }
        i += 1;
    }
    assert(s@.subrange(0, i as int) =~= s@);
    done.push(cur);
    done
}

/// A line without the carriage return of a `\r\n` ending.
pub open spec fn strip_cr(l: Seq<char>) -> Seq<char> {
    if l.len() > 0 && l.last() == '\r' {
        l.drop_last()
    } else {
        l
    }
}

/// Each line without the carriage return of a `\r\n` ending.
pub open spec fn strip_all(ls: Seq<Seq<char>>) -> Seq<Seq<char>> {
    ls.map_values(|l: Seq<char>| strip_cr(l))
}

/// The lines of `s` as `str::lines` yields them: split at `\n`, a `\r` before
/// the `\n` dropped, and no empty line after a final `\n`.
pub open spec fn lines_of(s: Seq<char>) -> Seq<Seq<char>> {
    let parts = split_on(s, '\n');
    if s.len() == 0 {
        Seq::empty()
    } else if s.last() == '\n' {
        strip_all(parts.drop_last())
    } else {
        strip_all(parts.drop_last()).push(parts.last())
    }
}

/// What one ledger line holds: user, difficulty and score, or why it is
/// malformed. The three fields are checked in order.
pub open spec fn line_result(line: Seq<char>) -> Result<
    (Seq<char>, DifficultyKind, usize),
    AchivementError,
> {
    let f = split_on(line, SEP);
    if f.len() != 3 {
        Err(AchivementError::FieldCount)
    } else {
        match kind_of_key(lower_of(trimmed(f[1]))) {
            None => Err(AchivementError::InvalidDifficulty),
            Some(d) => match usize_of(trimmed(f[2])) {
                None => Err(AchivementError::InvalidScore),
                Some(n) => Ok((trimmed(f[0]), d, n)),
            },
        }
    }
}

/// The lines of the ledger text that hold records: all but the header.
pub open spec fn record_lines(text: Seq<char>) -> Seq<Seq<char>> {
    let ls = lines_of(text);
    if ls.len() == 0 {
        ls
    } else {
        ls.drop_first()
    }
}

/// Builds a record from its three fields, already trimmed: the user name,
/// the difficulty name (any case) and the score.
pub fn record_of(username: String, difficulty: &str, score: &str) -> (r: Result<
    Achivement,
    AchivementError,
>)
    ensures
        match (r, kind_of_key(lower_of(difficulty@)), usize_of(score@)) {
            (Ok(a), Some(d), Some(n)) => a.username == username && a.difficulty == d && a.score
                == n,
            (Err(e), None, _) => e == AchivementError::InvalidDifficulty,
            (Err(e), Some(_), None) => e == AchivementError::InvalidScore,
            _ => false,
        },
{
    let difficulty = match DifficultyKind::from_str(difficulty) {
        Ok(d) => d,
        Err(_) => return Err(AchivementError::InvalidDifficulty),
    };
    let score = match parse_usize(score) {
        Some(n) => n,
        None => return Err(AchivementError::InvalidScore),
    };
    Ok(Achivement { username, difficulty, score })
}

/// Reads one ledger line.
fn parse_line(line: &str) -> (r: Result<Achivement, AchivementError>)
    ensures
        match (r, line_result(line@)) {
            (Ok(a), Ok((u, d, n))) => a.username@ == u && a.difficulty == d && a.score == n,
            (Err(e), Err(f)) => e == f,
            _ => false,
        },
{
    let f = split_at_char(line, SEP);
    assert(f@.len() == views_of(f@).len());
    if f.len() != 3 {
        return Err(AchivementError::FieldCount);
    }
    assert(f@[1]@ == views_of(f@)[1]);
    assert(f@[2]@ == views_of(f@)[2]);
    assert(f@[0]@ == views_of(f@)[0]);
    let username = trim(f[0].as_str());
    let difficulty = trim(f[1].as_str());
    let score = trim(f[2].as_str());
    record_of(username, difficulty.as_str(), score.as_str())
}

/// Reads the ledger text: a header line, then one record per line. The first
/// malformed line gives the error.
pub fn parse_achivements(text: &str) -> (r: Result<Vec<Achivement>, AchivementError>)
    ensures
        match r {
            Ok(v) => {
                &&& v@.len() == record_lines(text@).len()
                &&& forall|k: int|
                    0 <= k < v@.len() ==> #[trigger] line_result(record_lines(text@)[k]) == Ok::<
                        (Seq<char>, DifficultyKind, usize),
                        AchivementError,
                    >((v@[k].username@, v@[k].difficulty, v@[k].score))
            },
            Err(e) => exists|k: int|
                0 <= k < record_lines(text@).len() && #[trigger] line_result(
                    record_lines(text@)[k],
                ) == Err::<(Seq<char>, DifficultyKind, usize), AchivementError>(e) && forall|
                    j: int,
                |
                    0 <= j < k ==> (#[trigger] line_result(record_lines(text@)[j])) is Ok,
        },
{
    let lines = text_lines(text);
    let mut v: Vec<Achivement> = Vec::new();
    let mut k: usize = 1;
    while k < lines.len()
        invariant
            views_of(lines@) == lines_of(text@),
            1 <= k,
            k <= lines@.len() || k == 1,
            v@.len() == k - 1,
            forall|j: int|
                0 <= j < v@.len() ==> #[trigger] line_result(record_lines(text@)[j]) == Ok::<
                    (Seq<char>, DifficultyKind, usize),
                    AchivementError,
                >((v@[j].username@, v@[j].difficulty, v@[j].score)),
        decreases lines@.len() - k,
    {
        assert(record_lines(text@)[k - 1] == lines@[k as int]@);
        match parse_line(lines[k].as_str()) {
            Ok(a) => v.push(a),
            Err(e) => {
                proof {
                    let kk = k - 1;
                    assert forall|j: int| 0 <= j < kk implies (#[trigger] line_result(
                        record_lines(text@)[j],
                    )) is Ok by {
                        assert(line_result(record_lines(text@)[j]) == Ok::<
                            (Seq<char>, DifficultyKind, usize),
                            AchivementError,
                        >((v@[j].username@, v@[j].difficulty, v@[j].score)));
                    }
                }
                return Err(e);
            },
        }
        k += 1;
    }
    assert(views_of(lines@).len() == lines@.len());
    Ok(v)
}

/// The lines of `text`.
fn text_lines(text: &str) -> (r: Vec<String>)
    ensures
        views_of(r@) == lines_of(text@),
{
    let parts = split_at_char(text, '\n');
    let n = text.unicode_len();
    proof {
        lemma_split_on_nonempty(text@, '\n');
    }
    let mut r: Vec<String> = Vec::new();
    if n == 0 {
        assert(views_of(r@) =~= lines_of(text@));
        return r;
    }
    let last = parts.len() - 1;
    let mut i: usize = 0;
    while i < last
        invariant
            views_of(parts@) == split_on(text@, '\n'),
            last == parts@.len() - 1,
            i <= last,
            views_of(r@) == strip_all(split_on(text@, '\n').subrange(0, i as int)),
        decreases last - i,
    {
        let p = parts[i].as_str();
        let len = p.unicode_len();
        let ghost old_r = views_of(r@);
        assert(parts@[i as int]@ == views_of(parts@)[i as int]);
        if len > 0 && p.get_char(len - 1) == '\r' {
            assert(p@.subrange(0, len - 1) =~= p@.drop_last());
            r.push(p.substring_char(0, len - 1).to_owned());
        } else {
            r.push(p.to_owned());
        }
        let ghost pv = split_on(text@, '\n');
        assert(views_of(r@) =~= old_r.push(strip_cr(pv[i as int])));
        assert(strip_all(pv.subrange(0, i + 1)) =~= strip_all(pv.subrange(0, i as int)).push(
            strip_cr(pv[i as int]),
        ));
        i += 1;
    }
    let ghost parts_v = split_on(text@, '\n');
    assert(parts_v.subrange(0, last as int) =~= parts_v.drop_last());
    if text.get_char(n - 1) != '\n' {
        let ghost old_r = views_of(r@);
        assert(parts@[last as int]@ == views_of(parts@)[last as int]);
        r.push(parts[last].clone());
        assert(views_of(r@) =~= old_r.push(parts_v.last()));
    }
    r
}

} // verus!
