//! Ordering of directory entries: natural name order ("file2" before
//! "file10"), size, modification time or extension, optionally directories
//! first and optionally descending.

use vstd::prelude::*;
use crate::entry::{EntryKind, FileEntry};
use crate::event::SortField;
use crate::paths::{extension_or_empty, spec_extension_or_empty};
use crate::sorting::{
    flipped, is_index_permutation, is_stable_sort_of, is_total_preorder, no_later,
    stable_sort_permutation, stably_sorted, Order,
};
use crate::text::{chars_of, is_ascii_digit, spec_lowercase, to_lowercase};

verus! {

/// The number of ASCII digits at the start of `s`.
pub open spec fn digit_run_len(s: Seq<char>) -> nat
    decreases s.len(),
{
    if s.len() > 0 && is_ascii_digit(s[0]) {
        1 + digit_run_len(s.drop_first())
    } else {
        0
    }
}

pub open spec fn char_digit(c: char) -> nat {
    (c as int - '0' as int) as nat
}

/// The number a run of digits denotes, computed as `n * 10 + d` digit by digit
/// with saturation at `u64::MAX`.
pub open spec fn saturating_value(s: Seq<char>) -> nat
    decreases s.len(),
{
    if s.len() == 0 {
        0
    } else {
        let m = if saturating_value(s.drop_last()) * 10 > u64::MAX {
            u64::MAX as nat
        } else {
            saturating_value(s.drop_last()) * 10
        };
        if m + char_digit(s.last()) > u64::MAX {
            u64::MAX as nat
        } else {
            m + char_digit(s.last())
        }
    }
}

/// The number at the start of `s`.
pub open spec fn leading_number(s: Seq<char>) -> nat {
    saturating_value(s.take(digit_run_len(s) as int))
}

pub proof fn lemma_digit_run_positive(s: Seq<char>)
    requires
        s.len() > 0,
        is_ascii_digit(s[0]),
    ensures
        1 <= digit_run_len(s) <= s.len(),
{
    lemma_digit_run_bound(s);
}

pub proof fn lemma_digit_run_bound(s: Seq<char>)
    ensures
        digit_run_len(s) <= s.len(),
    decreases s.len(),
{
    if s.len() > 0 && is_ascii_digit(s[0]) {
        lemma_digit_run_bound(s.drop_first());
    }
}

/// Natural order of two strings: runs of ASCII digits compare by the number
/// they denote, any other characters compare one by one, and a string that runs
/// out first comes first.
pub open spec fn spec_natural_order(a: Seq<char>, b: Seq<char>) -> Order
    decreases a.len() + b.len(),
{
    if a.len() == 0 && b.len() == 0 {
        Order::Equal
    } else if a.len() == 0 {
        Order::Less
    } else if b.len() == 0 {
        Order::Greater
    } else if is_ascii_digit(a[0]) && is_ascii_digit(b[0]) {
        let na = leading_number(a);
        let nb = leading_number(b);
        if na < nb {
            Order::Less
        } else if na > nb {
            Order::Greater
        } else {
            proof {
                lemma_digit_run_positive(a);
                lemma_digit_run_positive(b);
            }
            spec_natural_order(a.skip(digit_run_len(a) as int), b.skip(digit_run_len(b) as int))
        }
    } else if a[0] < b[0] {
        Order::Less
    } else if a[0] > b[0] {
        Order::Greater
    } else {
        spec_natural_order(a.drop_first(), b.drop_first())
    }
}


/// The decimal digits of a number are ASCII digits, at least one of them.
pub proof fn lemma_decimal_digits(n: nat)
    ensures
        crate::text::decimal(n).len() >= 1,
        forall|i: int| 0 <= i < crate::text::decimal(n).len() ==> is_ascii_digit(#[trigger] crate::text::decimal(n)[i]),
    decreases n,
{
    if n >= 10 {
        lemma_decimal_digits(n / 10);
        let d = crate::text::decimal(n);
        assert forall|i: int| 0 <= i < d.len() implies is_ascii_digit(#[trigger] d[i]) by {
            if i < d.len() - 1 {
                assert(d[i] == crate::text::decimal(n / 10)[i]);
            }
        }
    }
}

/// A run of digits written for a number reads back as that number, for every
/// number up to `u64::MAX`.
pub proof fn law_digit_run_value(n: nat)
    requires
        n <= u64::MAX,
    ensures
        saturating_value(crate::text::decimal(n)) == n,
    decreases n,
{
    let d = crate::text::decimal(n);
    if n < 10 {
        assert(d.drop_last() =~= Seq::<char>::empty());
        assert(saturating_value(d.drop_last()) == 0);
        assert(d.last() == crate::text::digit_char(n));
        assert(char_digit(crate::text::digit_char(n)) == n);
    } else {
        law_digit_run_value(n / 10);
        assert(d.drop_last() =~= crate::text::decimal(n / 10));
        assert(d.last() == crate::text::digit_char(n % 10));
        let v = saturating_value(d.drop_last());
        assert(v == n / 10);
        assert(char_digit(crate::text::digit_char(n % 10)) == n % 10);
        assert((n / 10) * 10 + n % 10 == n);
        assert(v * 10 == (n / 10) * 10);
        assert(v * 10 <= u64::MAX);
    }
}

proof fn lemma_digit_run_of_digits(t: Seq<char>, s: Seq<char>)
    requires
        forall|i: int| 0 <= i < t.len() ==> is_ascii_digit(#[trigger] t[i]),
        s.len() == 0 || !is_ascii_digit(s[0]),
    ensures
        digit_run_len(t + s) == t.len(),
    decreases t.len(),
{
    if t.len() > 0 {
        assert((t + s)[0] == t[0]);
        assert((t + s).drop_first() =~= t.drop_first() + s);
        assert forall|i: int| 0 <= i < t.drop_first().len() implies is_ascii_digit(
            #[trigger] t.drop_first()[i],
        ) by {
            assert(t.drop_first()[i] == t[i + 1]);
        }
        lemma_digit_run_of_digits(t.drop_first(), s);
    } else {
        assert(t + s =~= s);
    }
}

/// Every string is in natural order equal to itself.
pub proof fn lemma_natural_order_refl(a: Seq<char>)
    ensures
        spec_natural_order(a, a) == Order::Equal,
    decreases a.len(),
{
    if a.len() > 0 {
        if is_ascii_digit(a[0]) {
            lemma_digit_run_positive(a);
            lemma_natural_order_refl(a.skip(digit_run_len(a) as int));
        } else {
            lemma_natural_order_refl(a.drop_first());
        }
    }
}

proof fn lemma_natural_order_common_prefix(p: Seq<char>, x: Seq<char>, y: Seq<char>)
    requires
        forall|i: int| 0 <= i < p.len() ==> !is_ascii_digit(#[trigger] p[i]),
    ensures
        spec_natural_order(p + x, p + y) == spec_natural_order(x, y),
    decreases p.len(),
{
    if p.len() == 0 {
        assert(p + x =~= x);
        assert(p + y =~= y);
    } else {
        let a = p + x;
        let b = p + y;
        assert(a[0] == p[0] && b[0] == p[0]);
        assert(!is_ascii_digit(p[0]));
        assert(a.drop_first() =~= p.drop_first() + x);
        assert(b.drop_first() =~= p.drop_first() + y);
        assert forall|i: int| 0 <= i < p.drop_first().len() implies !is_ascii_digit(
            #[trigger] p.drop_first()[i],
        ) by {
            assert(p.drop_first()[i] == p[i + 1]);
        }
        lemma_natural_order_common_prefix(p.drop_first(), x, y);
    }
}

/// Names that differ only in a number, written without leading zeros between
/// a common prefix without digits and a common suffix not starting with a
/// digit, are in the natural order of their numbers: `img100.jpg` comes before
/// `img200.jpg`, and `file2` before `file10`.
pub proof fn law_natural_order_by_number(prefix: Seq<char>, m: nat, n: nat, suffix: Seq<char>)
    requires
        m <= u64::MAX,
        n <= u64::MAX,
        forall|i: int| 0 <= i < prefix.len() ==> !is_ascii_digit(#[trigger] prefix[i]),
        suffix.len() == 0 || !is_ascii_digit(suffix[0]),
    ensures
        spec_natural_order(
            prefix + crate::text::decimal(m) + suffix,
            prefix + crate::text::decimal(n) + suffix,
        ) == (if m < n {
            Order::Less
        } else if m > n {
            Order::Greater
        } else {
            Order::Equal
        }),
{
    let dm = crate::text::decimal(m);
    let dn = crate::text::decimal(n);
    let x = dm + suffix;
    let y = dn + suffix;
    assert(prefix + dm + suffix =~= prefix + x);
    assert(prefix + dn + suffix =~= prefix + y);
    lemma_natural_order_common_prefix(prefix, x, y);
    lemma_decimal_digits(m);
    lemma_decimal_digits(n);
    lemma_digit_run_of_digits(dm, suffix);
    lemma_digit_run_of_digits(dn, suffix);
    law_digit_run_value(m);
    law_digit_run_value(n);
    assert(x.take(dm.len() as int) =~= dm);
    assert(y.take(dn.len() as int) =~= dn);
    assert(x[0] == dm[0] && y[0] == dn[0]);
    assert(leading_number(x) == m);
    assert(leading_number(y) == n);
    if m == n {
        lemma_natural_order_refl(x);
    }
}

/// Exchanging the strings flips their natural order.
pub proof fn lemma_natural_order_flip(a: Seq<char>, b: Seq<char>)
    ensures
        spec_natural_order(a, b) == flipped(spec_natural_order(b, a)),
    decreases a.len() + b.len(),
{
    if a.len() > 0 && b.len() > 0 {
        if is_ascii_digit(a[0]) && is_ascii_digit(b[0]) {
            lemma_digit_run_positive(a);
            lemma_digit_run_positive(b);
            lemma_natural_order_flip(
                a.skip(digit_run_len(a) as int),
                b.skip(digit_run_len(b) as int),
            );
        } else if a[0] == b[0] {
            lemma_natural_order_flip(a.drop_first(), b.drop_first());
        }
    }
}

/// "No later in natural order" is transitive.
pub proof fn lemma_natural_order_trans(a: Seq<char>, b: Seq<char>, c: Seq<char>)
    requires
        spec_natural_order(a, b) != Order::Greater,
        spec_natural_order(b, c) != Order::Greater,
    ensures
        spec_natural_order(a, c) != Order::Greater,
    decreases a.len() + b.len() + c.len(),
{
    if a.len() == 0 || b.len() == 0 || c.len() == 0 {
        return;
    }
    let da = is_ascii_digit(a[0]);
    let db = is_ascii_digit(b[0]);
    let dc = is_ascii_digit(c[0]);
    if da && db && dc {
        lemma_digit_run_positive(a);
        lemma_digit_run_positive(b);
        lemma_digit_run_positive(c);
        if leading_number(a) == leading_number(b) && leading_number(b) == leading_number(c) {
            lemma_natural_order_trans(
                a.skip(digit_run_len(a) as int),
                b.skip(digit_run_len(b) as int),
                c.skip(digit_run_len(c) as int),
            );
        }
    } else if !da && !db && !dc {
        if a[0] == b[0] && b[0] == c[0] {
            lemma_natural_order_trans(a.drop_first(), b.drop_first(), c.drop_first());
        }
    }
}


proof fn lemma_digit_run_exact(s: Seq<char>, m: int)
    requires
        0 <= m <= s.len(),
        forall|k: int| 0 <= k < m ==> is_ascii_digit(#[trigger] s[k]),
        m == s.len() || !is_ascii_digit(s[m]),
    ensures
        digit_run_len(s) == m,
    decreases m,
{
    if m > 0 {
        assert forall|k: int| 0 <= k < m - 1 implies is_ascii_digit(#[trigger] s.drop_first()[k]) by {
            assert(s.drop_first()[k] == s[k + 1]);
        }
        if m < s.len() {
            assert(s.drop_first()[m - 1] == s[m]);
        }
        lemma_digit_run_exact(s.drop_first(), m - 1);
    }
}

/// Reads the number that starts at `pos`: its value (saturating at `u64::MAX`)
/// and the position just after its digits.
fn collect_number(chars: &Vec<char>, pos: usize) -> (r: (u64, usize))
    requires
        pos <= chars.len(),
    ensures
        r.1 == pos + digit_run_len(chars@.skip(pos as int)),
        r.0 == leading_number(chars@.skip(pos as int)),
{
    let ghost s = chars@.skip(pos as int);
    let mut n: u64 = 0;
    let mut k: usize = pos;
    while k < chars.len() && '0' <= chars[k] && chars[k] <= '9'
        invariant
            pos <= k <= chars.len(),
            s == chars@.skip(pos as int),
            forall|i: int| 0 <= i < k - pos ==> is_ascii_digit(#[trigger] s[i]),
            n == saturating_value(s.take(k - pos)),
        decreases chars.len() - k,
    {
        let d: u64 = (chars[k] as u32 - '0' as u32) as u64;
        let m: u128 = if (n as u128) * 10 > u64::MAX as u128 {
            u64::MAX as u128
        } else {
            (n as u128) * 10
        };
        let r: u128 = if m + (d as u128) > u64::MAX as u128 {
            u64::MAX as u128
        } else {
            m + (d as u128)
        };
        assert(s.take(k - pos + 1).drop_last() == s.take(k - pos));
        assert(s.take(k - pos + 1).last() == chars@[k as int]);
        n = r as u64;
        k = k + 1;
    }
    proof {
        lemma_digit_run_exact(s, k - pos);
    }
    (n, k)
}

/// Compares two strings in natural order.
pub fn natural_compare(a: &str, b: &str) -> (r: Order)
    ensures
        r == spec_natural_order(a@, b@),
{
    let av = chars_of(a);
    let bv = chars_of(b);
    let mut i: usize = 0;
    let mut j: usize = 0;
    assert(av@.skip(0) == av@);
    assert(bv@.skip(0) == bv@);
    loop
        invariant
            i <= av.len(),
            j <= bv.len(),
            av@ == a@,
            bv@ == b@,
            spec_natural_order(a@, b@) == spec_natural_order(av@.skip(i as int), bv@.skip(j as int)),
        decreases av.len() + bv.len() - i - j,
    {
        let ghost sa = av@.skip(i as int);
        let ghost sb = bv@.skip(j as int);
        if i == av.len() && j == bv.len() {
            return Order::Equal;
        }
        if i == av.len() {
            return Order::Less;
        }
        if j == bv.len() {
            return Order::Greater;
        }
        let ac = av[i];
        let bc = bv[j];
        assert(sa[0] == ac && sb[0] == bc);
        if '0' <= ac && ac <= '9' && '0' <= bc && bc <= '9' {
            let (an, i2) = collect_number(&av, i);
            let (bn, j2) = collect_number(&bv, j);
            if an < bn {
                return Order::Less;
            }
            if an > bn {
                return Order::Greater;
            }
            proof {
                lemma_digit_run_positive(sa);
                lemma_digit_run_positive(sb);
                assert(sa.skip(digit_run_len(sa) as int) == av@.skip(i2 as int));
                assert(sb.skip(digit_run_len(sb) as int) == bv@.skip(j2 as int));
            }
            i = i2;
            j = j2;
        } else if ac < bc {
            return Order::Less;
        } else if ac > bc {
            return Order::Greater;
        } else {
            assert(sa.drop_first() == av@.skip(i + 1));
            assert(sb.drop_first() == bv@.skip(j + 1));
            i = i + 1;
            j = j + 1;
        }
    }
}


pub open spec fn u64_order(a: u64, b: u64) -> Order {
    if a < b {
        Order::Less
    } else if a > b {
        Order::Greater
    } else {
        Order::Equal
    }
}

/// Modification times in time order; an unknown time comes first.
pub open spec fn modified_order(a: Option<i128>, b: Option<i128>) -> Order {
    match (a, b) {
        (None, None) => Order::Equal,
        (None, Some(_)) => Order::Less,
        (Some(_), None) => Order::Greater,
        (Some(x), Some(y)) => if x < y {
            Order::Less
        } else if x > y {
            Order::Greater
        } else {
            Order::Equal
        },
    }
}

/// Lexicographic order of strings by character (the order `String::cmp` gives,
/// since UTF-8 preserves the order of code points).
pub open spec fn lex_order(a: Seq<char>, b: Seq<char>) -> Order
    decreases a.len() + b.len(),
{
    if a.len() == 0 && b.len() == 0 {
        Order::Equal
    } else if a.len() == 0 {
        Order::Less
    } else if b.len() == 0 {
        Order::Greater
    } else if a[0] < b[0] {
        Order::Less
    } else if a[0] > b[0] {
        Order::Greater
    } else {
        lex_order(a.drop_first(), b.drop_first())
    }
}

/// The order of two entries by one sort field, ascending.
pub open spec fn field_order(a: FileEntry, b: FileEntry, field: SortField) -> Order {
    match field {
        SortField::Name => spec_natural_order(spec_lowercase(a.name@), spec_lowercase(b.name@)),
        SortField::Size => u64_order(a.size, b.size),
        SortField::Modified => modified_order(a.modified, b.modified),
        SortField::Extension => lex_order(
            spec_lowercase(spec_extension_or_empty(a.path@)),
            spec_lowercase(spec_extension_or_empty(b.path@)),
        ),
    }
}

/// The order of two entries in a listing: directories first when asked, then
/// by the field, reversed when descending.
pub open spec fn spec_entry_order(
    a: FileEntry,
    b: FileEntry,
    field: SortField,
    ascending: bool,
    dirs_first: bool,
) -> Order {
    let ad = a.kind == EntryKind::Directory;
    let bd = b.kind == EntryKind::Directory;
    if dirs_first && ad != bd {
        if ad {
            Order::Less
        } else {
            Order::Greater
        }
    } else if ascending {
        field_order(a, b, field)
    } else {
        flipped(field_order(a, b, field))
    }
}

pub open spec fn entry_order(field: SortField, ascending: bool, dirs_first: bool) -> spec_fn(
    FileEntry,
    FileEntry,
) -> Order {
    |a: FileEntry, b: FileEntry| spec_entry_order(a, b, field, ascending, dirs_first)
}

pub proof fn lemma_lex_order_flip(a: Seq<char>, b: Seq<char>)
    ensures
        lex_order(a, b) == flipped(lex_order(b, a)),
    decreases a.len() + b.len(),
{
    if a.len() > 0 && b.len() > 0 && a[0] == b[0] {
        lemma_lex_order_flip(a.drop_first(), b.drop_first());
    }
}

pub proof fn lemma_lex_order_trans(a: Seq<char>, b: Seq<char>, c: Seq<char>)
    requires
        lex_order(a, b) != Order::Greater,
        lex_order(b, c) != Order::Greater,
    ensures
        lex_order(a, c) != Order::Greater,
    decreases a.len() + b.len() + c.len(),
{
    if a.len() > 0 && b.len() > 0 && c.len() > 0 && a[0] == b[0] && b[0] == c[0] {
        lemma_lex_order_trans(a.drop_first(), b.drop_first(), c.drop_first());
    }
}

proof fn lemma_field_order_flip(a: FileEntry, b: FileEntry, field: SortField)
    ensures
        field_order(a, b, field) == flipped(field_order(b, a, field)),
{
    match field {
        SortField::Name => lemma_natural_order_flip(spec_lowercase(a.name@), spec_lowercase(b.name@)),
        SortField::Extension => lemma_lex_order_flip(
            spec_lowercase(spec_extension_or_empty(a.path@)),
            spec_lowercase(spec_extension_or_empty(b.path@)),
        ),
        _ => {},
    }
}

proof fn lemma_field_order_trans(a: FileEntry, b: FileEntry, c: FileEntry, field: SortField)
    requires
        field_order(a, b, field) != Order::Greater,
        field_order(b, c, field) != Order::Greater,
    ensures
        field_order(a, c, field) != Order::Greater,
{
    match field {
        SortField::Name => lemma_natural_order_trans(
            spec_lowercase(a.name@),
            spec_lowercase(b.name@),
            spec_lowercase(c.name@),
        ),
        SortField::Extension => lemma_lex_order_trans(
            spec_lowercase(spec_extension_or_empty(a.path@)),
            spec_lowercase(spec_extension_or_empty(b.path@)),
            spec_lowercase(spec_extension_or_empty(c.path@)),
        ),
        _ => {},
    }
}

/// The listing order is a total preorder for every choice of field, direction
/// and directories-first, so sorting by it is well defined.
/// How two entries are ordered in a listing: with directories first, a
/// directory comes before anything else; otherwise sizes go smaller first,
/// modification times older first (an unknown time first), names in natural
/// order ignoring case, and descending order is ascending order with the two
/// entries exchanged.
pub proof fn law_entry_order(a: FileEntry, b: FileEntry, field: SortField, dirs_first: bool)
    ensures
        dirs_first && a.kind == EntryKind::Directory && b.kind != EntryKind::Directory
            ==> spec_entry_order(a, b, field, true, dirs_first) == Order::Less
            && spec_entry_order(a, b, field, false, dirs_first) == Order::Less,
        !dirs_first || (a.kind == EntryKind::Directory) == (b.kind == EntryKind::Directory) ==> {
            &&& spec_entry_order(a, b, field, false, dirs_first) == spec_entry_order(
                b,
                a,
                field,
                true,
                dirs_first,
            )
            &&& (field == SortField::Size ==> spec_entry_order(a, b, field, true, dirs_first) == (
            if a.size < b.size {
                Order::Less
            } else if a.size > b.size {
                Order::Greater
            } else {
                Order::Equal
            }))
            &&& (field == SortField::Modified ==> spec_entry_order(a, b, field, true, dirs_first)
                == match (a.modified, b.modified) {
                (None, None) => Order::Equal,
                (None, Some(_)) => Order::Less,
                (Some(_), None) => Order::Greater,
                (Some(x), Some(y)) => if x < y {
                    Order::Less
                } else if x > y {
                    Order::Greater
                } else {
                    Order::Equal
                },
            })
            &&& (field == SortField::Name ==> spec_entry_order(a, b, field, true, dirs_first)
                == spec_natural_order(spec_lowercase(a.name@), spec_lowercase(b.name@)))
        },
{
    lemma_field_order_flip(a, b, field);
}

/// Where two strings first differ in a character that is not a digit on both
/// sides, the smaller character comes first; a string that is a prefix of the
/// other (with no digits in it) comes first.
pub proof fn law_natural_order_chars(p: Seq<char>, x: Seq<char>, y: Seq<char>)
    requires
        forall|i: int| 0 <= i < p.len() ==> !is_ascii_digit(#[trigger] p[i]),
    ensures
        x.len() > 0 && y.len() > 0 && !(is_ascii_digit(x[0]) && is_ascii_digit(y[0])) && x[0] < y[0]
            ==> spec_natural_order(p + x, p + y) == Order::Less,
        y.len() > 0 ==> spec_natural_order(p, p + y) == Order::Less,
{
    lemma_natural_order_common_prefix(p, x, y);
    lemma_natural_order_common_prefix(p, Seq::<char>::empty(), y);
    assert(p + Seq::<char>::empty() =~= p);
}

pub proof fn lemma_entry_order_total_preorder(field: SortField, ascending: bool, dirs_first: bool)
    ensures
        is_total_preorder(entry_order(field, ascending, dirs_first)),
{
    let order = entry_order(field, ascending, dirs_first);
    assert forall|a: FileEntry, b: FileEntry| #[trigger] order(a, b) == flipped(order(b, a)) by {
        lemma_field_order_flip(a, b, field);
    }
    assert forall|a: FileEntry, b: FileEntry, c: FileEntry|
        #[trigger] no_later(order, a, b) && #[trigger] no_later(order, b, c) implies no_later(
        order,
        a,
        c,
    ) by {
        let ad = a.kind == EntryKind::Directory;
        let bd = b.kind == EntryKind::Directory;
        let cd = c.kind == EntryKind::Directory;
        if !dirs_first || (ad == bd && bd == cd) {
            if ascending {
                lemma_field_order_trans(a, b, c, field);
            } else {
                lemma_field_order_flip(a, b, field);
                lemma_field_order_flip(b, c, field);
                lemma_field_order_flip(a, c, field);
                lemma_field_order_trans(c, b, a, field);
            }
        }
    }
}

fn u64_compare(a: u64, b: u64) -> (r: Order)
    ensures
        r == u64_order(a, b),
{
    if a < b {
        Order::Less
    } else if a > b {
        Order::Greater
    } else {
        Order::Equal
    }
}

fn modified_compare(a: Option<i128>, b: Option<i128>) -> (r: Order)
    ensures
        r == modified_order(a, b),
{
    match (a, b) {
        (None, None) => Order::Equal,
        (None, Some(_)) => Order::Less,
        (Some(_), None) => Order::Greater,
        (Some(x), Some(y)) => if x < y {
            Order::Less
        } else if x > y {
            Order::Greater
        } else {
            Order::Equal
        },
    }
}

/// Compares two strings character by character.
pub fn lex_compare(a: &str, b: &str) -> (r: Order)
    ensures
        r == lex_order(a@, b@),
{
    let av = chars_of(a);
    let bv = chars_of(b);
    let mut i: usize = 0;
    assert(av@.skip(0) == av@);
    assert(bv@.skip(0) == bv@);
    loop
        invariant
            i <= av.len(),
            i <= bv.len(),
            av@ == a@,
            bv@ == b@,
            lex_order(a@, b@) == lex_order(av@.skip(i as int), bv@.skip(i as int)),
        decreases av.len() - i,
    {
        if i == av.len() && i == bv.len() {
            return Order::Equal;
        }
        if i == av.len() {
            return Order::Less;
        }
        if i == bv.len() {
            return Order::Greater;
        }
        assert(av@.skip(i as int)[0] == av@[i as int]);
        assert(bv@.skip(i as int)[0] == bv@[i as int]);
        if av[i] < bv[i] {
            return Order::Less;
        }
        if av[i] > bv[i] {
            return Order::Greater;
        }
        assert(av@.skip(i as int).drop_first() == av@.skip(i + 1));
        assert(bv@.skip(i as int).drop_first() == bv@.skip(i + 1));
        i = i + 1;
    }
}

fn reversed(o: Order) -> (r: Order)
    ensures
        r == flipped(o),
{
    match o {
        Order::Less => Order::Greater,
        Order::Equal => Order::Equal,
        Order::Greater => Order::Less,
    }
}

/// Compares two entries in listing order.
pub fn compare_entries(
    a: &FileEntry,
    b: &FileEntry,
    field: SortField,
    ascending: bool,
    dirs_first: bool,
) -> (r: Order)
    ensures
        r == spec_entry_order(*a, *b, field, ascending, dirs_first),
{
    if dirs_first {
        let a_is_dir = a.kind == EntryKind::Directory;
        let b_is_dir = b.kind == EntryKind::Directory;
        if a_is_dir != b_is_dir {
            return if a_is_dir {
                Order::Less
            } else {
                Order::Greater
            };
        }
    }
    let ord = match field {
        SortField::Name => {
            let an = to_lowercase(a.name.as_str());
            let bn = to_lowercase(b.name.as_str());
            natural_compare(an.as_str(), bn.as_str())
        },
        SortField::Size => u64_compare(a.size, b.size),
        SortField::Modified => modified_compare(a.modified, b.modified),
        SortField::Extension => {
            let ae = extension_or_empty(a.path.as_str());
            let be = extension_or_empty(b.path.as_str());
            let al = to_lowercase(ae.as_str());
            let bl = to_lowercase(be.as_str());
            lex_compare(al.as_str(), bl.as_str())
        },
    };
    if ascending {
        ord
    } else {
        reversed(ord)
    }
}

/// Sorts a listing stably in listing order.
pub fn sort_entries(entries: &mut Vec<FileEntry>, field: SortField, ascending: bool, dirs_first: bool)
    ensures
        is_stable_sort_of(final(entries)@, old(entries)@, entry_order(field, ascending, dirs_first)),
        final(entries)@.len() == old(entries)@.len(),
{
    let ghost order = entry_order(field, ascending, dirs_first);
    proof {
        lemma_entry_order_total_preorder(field, ascending, dirs_first);
    }
    let f = |a: &FileEntry, b: &FileEntry| -> (o: Order)
        ensures
            o == spec_entry_order(*a, *b, field, ascending, dirs_first),
        { compare_entries(a, b, field, ascending, dirs_first) };
    let p = stable_sort_permutation(entries, &f, Ghost(order));
    let mut out: Vec<FileEntry> = Vec::new();
    let mut k: usize = 0;
    while k < p.len()
        invariant
            k <= p.len(),
            is_index_permutation(p@, entries@.len()),
            out@.len() == k,
            forall|m: int| 0 <= m < k ==> #[trigger] out@[m] == entries@[p@[m] as int],
        decreases p.len() - k,
    {
        let e = entries[p[k]].clone();
        out.push(e);
        k = k + 1;
    }
    let ghost input = entries@;
    assert(is_stable_sort_of(out@, input, order)) by {
        assert(out@.len() == p@.len());
    }
    *entries = out;
}

} // verus!
