//! The pure helpers of the SFTP browser: size labels, breadcrumb splitting
//! and remote path joining, plus the progress events a transfer reports.

use vstd::prelude::*;
use crate::text::{chars_of, decimal, digit_char, push_decimal, string_from_chars};

verus! {

/// What a running transfer reports to the UI.
#[derive(Debug)]
pub enum TransferProgress {
    /// A transfer has started (`uploading` false for a download).
    Started { id: String, filename: String, total: u64, uploading: bool },
    /// Bytes transferred so far.
    Progress { id: String, transferred: u64, total: u64 },
    /// Finished; `note` carries non-fatal warnings (skipped entries).
    Completed { id: String, note: Option<String> },
    /// Failed.
    Error { id: String, message: String },
}

pub open spec fn pow_two(e: nat) -> nat
    decreases e,
{
    if e == 0 {
        1
    } else {
        2 * pow_two((e - 1) as nat)
    }
}

/// Number of binary digits of `n` (0 for 0).
pub open spec fn bit_len(n: nat) -> nat
    decreases n,
{
    if n == 0 {
        0
    } else {
        1 + bit_len(n / 2)
    }
}

/// `n / d` rounded to the nearest integer, ties to the even one.
pub open spec fn div_round_even(n: nat, d: nat) -> nat {
    let q = n / d;
    let r = n % d;
    if 2 * r > d || (2 * r == d && q % 2 == 1) {
        q + 1
    } else {
        q
    }
}

/// The value that `n as f64` holds: `n` itself below 2^53, otherwise `n`
/// rounded to 53 significant bits, ties to even.
pub open spec fn f64_value(n: nat) -> nat {
    if n < pow_two(53) {
        n
    } else {
        let e = (bit_len(n) - 53) as nat;
        div_round_even(n, pow_two(e)) * pow_two(e)
    }
}

/// The size unit a byte count is shown in: B, KB, MB, GB, TB (0 to 4).
pub open spec fn size_unit(bytes: nat) -> nat {
    if bytes < 1024 {
        0
    } else if bytes < 1048576 {
        1
    } else if bytes < 1073741824 {
        2
    } else if bytes < 1099511627776 {
        3
    } else {
        4
    }
}

pub open spec fn unit_bytes(i: nat) -> nat {
    if i == 0 {
        1
    } else if i == 1 {
        1024
    } else if i == 2 {
        1048576
    } else if i == 3 {
        1073741824
    } else {
        1099511627776
    }
}

pub open spec fn unit_name(i: nat) -> Seq<char> {
    if i == 0 {
        "B"@
    } else if i == 1 {
        "KB"@
    } else if i == 2 {
        "MB"@
    } else if i == 3 {
        "GB"@
    } else {
        "TB"@
    }
}

/// The size in tenths of its unit, rounded to the nearest tenth (ties to
/// even), as one-decimal float formatting of `bytes as f64` scaled down by
/// powers of 1024 gives it.
pub open spec fn size_tenths(bytes: nat) -> nat {
    div_round_even(10 * f64_value(bytes), unit_bytes(size_unit(bytes)))
}

/// `0 B`; a count below 1024 as `<n> B`; otherwise the size in the largest
/// unit up to TB that it reaches, with one decimal: `1.5 KB`.
pub open spec fn spec_humanize_size(bytes: nat) -> Seq<char> {
    if bytes == 0 {
        "0 B"@
    } else if size_unit(bytes) == 0 {
        decimal(bytes) + " B"@
    } else {
        decimal(size_tenths(bytes) / 10) + "."@ + seq![digit_char(size_tenths(bytes) % 10)] + " "@
            + unit_name(size_unit(bytes))
    }
}

proof fn lemma_bit_len_bound(n: nat, k: nat)
    requires
        n < pow_two(k),
    ensures
        bit_len(n) <= k,
    decreases k,
{
    if k > 0 && n > 0 {
        lemma_bit_len_bound(n / 2, (k - 1) as nat);
    }
}

proof fn lemma_bit_len_low(n: nat, k: nat)
    requires
        pow_two(k) <= n,
    ensures
        k < bit_len(n),
    decreases k,
{
    if k > 0 {
        lemma_bit_len_low(n / 2, (k - 1) as nat);
    }
}

proof fn lemma_pow_two_64()
    ensures
        pow_two(53) == 0x20_0000_0000_0000,
        pow_two(64) == 0x1_0000_0000_0000_0000,
{
    reveal_with_fuel(pow_two, 65);
}

proof fn lemma_pow_two_mono(a: nat, b: nat)
    requires
        a <= b,
    ensures
        pow_two(a) <= pow_two(b),
        pow_two(a) >= 1,
    decreases b,
{
    if b > a {
        lemma_pow_two_mono(a, (b - 1) as nat);
    } else if a > 0 {
        lemma_pow_two_mono((a - 1) as nat, (a - 1) as nat);
    }
}

proof fn lemma_pow_two_add(a: nat, b: nat)
    ensures
        pow_two(a + b) == pow_two(a) * pow_two(b),
    decreases a,
{
    if a > 0 {
        let a1 = (a - 1) as nat;
        lemma_pow_two_add(a1, b);
        assert(a1 + b + 1 == a + b);
        assert(pow_two(a + b) == 2 * pow_two(a1 + b));
        assert(pow_two(a) == 2 * pow_two(a1));
        let x = pow_two(a1);
        let y = pow_two(b);
        assert(2 * (x * y) == (2 * x) * y) by (nonlinear_arith);
        assert(pow_two(a1 + b) == x * y);
        assert(pow_two(a + b) == 2 * (x * y));
        assert(pow_two(a) * y == (2 * x) * y);
    } else {
        assert(pow_two(0) == 1);
        assert(a + b == b);
        assert(pow_two(a) * pow_two(b) == pow_two(b));
    }
}

/// `n as f64`, exactly, as an integer.
fn f64_value_of(n: u64) -> (r: u128)
    ensures
        r == f64_value(n as nat),
        r <= 0x1_0000_0000_0000_0000,
{
    proof {
        lemma_pow_two_64();
    }
    if n < 0x20_0000_0000_0000 {
        return n as u128;
    }
    proof {
        lemma_bit_len_bound(n as nat, 64);
        lemma_bit_len_low(n as nat, 53);
    }
    let mut len: u64 = 0;
    let mut m: u64 = n;
    while m > 0
        invariant
            len + bit_len(m as nat) == bit_len(n as nat),
            bit_len(n as nat) <= 64,
        decreases m,
    {
        m = m / 2;
        len = len + 1;
    }
    let e: u64 = len - 53;
    proof {
        reveal_with_fuel(pow_two, 12);
    }
    let mut p: u128 = 1;
    let mut k: u64 = 0;
    while k < e
        invariant
            k <= e,
            e <= 11,
            p == pow_two(k as nat),
            p <= pow_two(11),
            pow_two(11) == 2048,
        decreases e - k,
    {
        proof {
            lemma_pow_two_mono((k + 1) as nat, 11);
        }
        p = p * 2;
        k = k + 1;
    }
    proof {
        lemma_pow_two_mono(e as nat, 11);
        lemma_pow_two_add(e as nat, (64 - e) as nat);
    }
    let ghost m64 = pow_two((64 - e) as nat);
    let q: u128 = (n as u128) / p;
    let rem: u128 = (n as u128) % p;
    let rounded: u128 = if 2 * rem > p || (2 * rem == p && q % 2 == 1) {
        q + 1
    } else {
        q
    };
    assert(rounded * p <= 0x1_0000_0000_0000_0000) by (nonlinear_arith)
        requires
            q == (n as u128) / p,
            rounded <= q + 1,
            p >= 1,
            (n as int) < 0x1_0000_0000_0000_0000,
            m64 * p == 0x1_0000_0000_0000_0000,
            m64 >= 0,
    {
        assert(q * p <= n);
        assert(q * p < m64 * p);
        assert(q < m64);
        assert((q + 1) * p <= m64 * p);
    }
    rounded * p
}

/// The size as a label: `0 B`, `512 B`, `1.5 KB`, `1.0 GB`.
pub fn humanize_size(bytes: u64) -> (r: String)
    ensures
        r@ == spec_humanize_size(bytes as nat),
{
    if bytes == 0 {
        return "0 B".to_owned();
    }
    let i: u64 = if bytes < 1024 {
        0
    } else if bytes < 1048576 {
        1
    } else if bytes < 1073741824 {
        2
    } else if bytes < 1099511627776 {
        3
    } else {
        4
    };
    let mut out = String::new();
    if i == 0 {
        push_decimal(&mut out, bytes);
        out.append(" B");
        return out;
    }
    let unit: u128 = if i == 1 {
        1024
    } else if i == 2 {
        1048576
    } else if i == 3 {
        1073741824
    } else {
        1099511627776
    };
    let v = f64_value_of(bytes);
    let n: u128 = 10 * v;
    let q: u128 = n / unit;
    let rem: u128 = n % unit;
    let t: u128 = if 2 * rem > unit || (2 * rem == unit && q % 2 == 1) {
        q + 1
    } else {
        q
    };
    assert(t / 10 < 0x1_0000_0000_0000_0000) by (nonlinear_arith)
        requires
            q == n / unit,
            unit >= 1024,
            n <= 10 * 0x1_0000_0000_0000_0000,
            t <= q + 1,
    {
        assert(q <= n / 1024);
    }
    let whole: u64 = (t / 10) as u64;
    let tenth: u8 = (t % 10) as u8;
    push_decimal(&mut out, whole);
    out.append(".");
    let c = (tenth + 48u8) as char;
    assert(c == digit_char((t % 10) as nat));
    crate::text::string_push(&mut out, c);
    out.append(" ");
    if i == 1 {
        out.append("KB");
    } else if i == 2 {
        out.append("MB");
    } else if i == 3 {
        out.append("GB");
    } else {
        out.append("TB");
    }
    out
}

/// The path without its trailing slashes (`trim_end_matches('/')`).
pub open spec fn trim_end_slashes(s: Seq<char>) -> Seq<char>
    decreases s.len(),
{
    if s.len() > 0 && s.last() == '/' {
        trim_end_slashes(s.drop_last())
    } else {
        s
    }
}

/// The non-empty `/`-separated components of `s`, where `cur` holds the
/// component read so far.
pub open spec fn components_from(s: Seq<char>, cur: Seq<char>) -> Seq<Seq<char>>
    decreases s.len(),
{
    if s.len() == 0 {
        if cur.len() > 0 {
            seq![cur]
        } else {
            Seq::empty()
        }
    } else if s[0] == '/' {
        (if cur.len() > 0 {
            seq![cur]
        } else {
            Seq::empty()
        }) + components_from(s.drop_first(), Seq::empty())
    } else {
        components_from(s.drop_first(), cur.push(s[0]))
    }
}

/// The non-empty `/`-separated components of a path.
pub open spec fn components(s: Seq<char>) -> Seq<Seq<char>> {
    components_from(s, Seq::empty())
}

/// `/` followed by the first `k` components, each after a `/`.
pub open spec fn crumb_path(parts: Seq<Seq<char>>, k: nat) -> Seq<char>
    decreases k,
{
    if k == 0 {
        Seq::empty()
    } else {
        crumb_path(parts, (k - 1) as nat) + "/"@ + parts[k - 1]
    }
}

/// The root crumb `("/", "/")`, then for each component the path up to it
/// and the component's name.
pub open spec fn crumbs_of(parts: Seq<Seq<char>>) -> Seq<(Seq<char>, Seq<char>)> {
    seq![("/"@, "/"@)] + Seq::new(parts.len(), |k: int| (crumb_path(parts, (k + 1) as nat), parts[k]))
}

/// The breadcrumbs of a path: the root `("/", "/")`, then for each
/// component the path up to it and the component's name.
pub open spec fn spec_breadcrumbs(path: Seq<char>) -> Seq<(Seq<char>, Seq<char>)> {
    let t = trim_end_slashes(path);
    if t.len() == 0 {
        seq![("/"@, "/"@)]
    } else {
        crumbs_of(components(t))
    }
}

pub open spec fn pairs_view(v: Seq<(String, String)>) -> Seq<(Seq<char>, Seq<char>)> {
    v.map_values(|p: (String, String)| (p.0@, p.1@))
}

fn trim_end_slashes_chars(c: &Vec<char>) -> (r: usize)
    ensures
        r <= c@.len(),
        trim_end_slashes(c@) == c@.take(r as int),
{
    let mut n: usize = c.len();
    assert(c@.take(n as int) =~= c@);
    while n > 0 && c[n - 1] == '/'
        invariant
            n <= c@.len(),
            trim_end_slashes(c@) == trim_end_slashes(c@.take(n as int)),
        decreases n,
    {
        assert(c@.take(n as int).drop_last() =~= c@.take(n - 1));
        n = n - 1;
    }
    n
}

proof fn lemma_components_step(s: Seq<char>, i: int, cur: Seq<char>)
    requires
        0 <= i < s.len(),
    ensures
        components_from(s.skip(i), cur) == if s[i] == '/' {
            (if cur.len() > 0 {
                seq![cur]
            } else {
                Seq::<Seq<char>>::empty()
            }) + components_from(s.skip(i + 1), Seq::empty())
        } else {
            components_from(s.skip(i + 1), cur.push(s[i]))
        },
{
    assert(s.skip(i).drop_first() =~= s.skip(i + 1));
    assert(s.skip(i)[0] == s[i]);
}

/// Splits a remote path for the breadcrumb bar: the path itself (`/` for
/// the root, however it is written, and for an empty path), then the root
/// crumb `("/", "/")` and one `(path so far, name)` crumb per component.
/// `/home/user/foo` gives the crumbs `/`, `/home`, `/home/user`,
/// `/home/user/foo`.
pub fn split_path(path: &str) -> (r: (String, Vec<(String, String)>))
    ensures
        r.0@ == if trim_end_slashes(path@).len() == 0 { "/"@ } else { path@ },
        pairs_view(r.1@) == spec_breadcrumbs(path@),
{
    proof {
        reveal_strlit("/");
    }
    let c = chars_of(path);
    let t = trim_end_slashes_chars(&c);
    let mut segs: Vec<(String, String)> = Vec::new();
    segs.push(("/".to_owned(), "/".to_owned()));
    if t == 0 {
        assert(pairs_view(segs@) =~= seq![("/"@, "/"@)]);
        return ("/".to_owned(), segs);
    }
    let ghost tv = c@.take(t as int);
    let ghost parts = components(tv);
    let mut acc: Vec<char> = Vec::new();
    let mut cur: Vec<char> = Vec::new();
    let ghost mut done: Seq<Seq<char>> = Seq::empty();
    let mut i: usize = 0;
    assert(tv.skip(0) =~= tv);
    while i < t
        invariant
            t <= c@.len(),
            tv == c@.take(t as int),
            "/"@ == seq!['/'],
            i <= t,
            parts == components(tv),
            parts == done + components_from(tv.skip(i as int), cur@),
            acc@ == crumb_path(done, done.len()),
            pairs_view(segs@) == crumbs_of(done),
        decreases t - i,
    {
        proof {
            lemma_components_step(tv, i as int, cur@);
        }
        let ch = c[i];
        assert(ch == tv[i as int]);
        if ch == '/' {
            if cur.len() > 0 {
                let ghost d2 = done.push(cur@);
                acc.push('/');
                let mut j: usize = 0;
                let ghost acc0 = acc@;
                while j < cur.len()
                    invariant
                        j <= cur@.len(),
                        acc@ == acc0 + cur@.take(j as int),
                    decreases cur.len() - j,
                {
                    acc.push(cur[j]);
                    assert(cur@.take(j + 1) =~= cur@.take(j as int).push(cur@[j as int]));
                    j = j + 1;
                }
                assert(cur@.take(cur@.len() as int) =~= cur@);
                assert(acc@ =~= crumb_path(done, done.len()) + "/"@ + cur@);
                assert(crumb_path(d2, d2.len()) =~= crumb_path(done, done.len()) + "/"@ + cur@) by {
                    assert forall|k: nat| k <= done.len() implies crumb_path(d2, k) == crumb_path(done, k) by {
                        lemma_crumb_prefix(done, d2, k);
                    }
                }
                let name = string_from_chars(cur.as_slice());
                let full = string_from_chars(acc.as_slice());
                let ghost before = segs@;
                segs.push((full, name));
                proof {
                    assert(pairs_view(segs@) =~= pairs_view(before).push((full@, name@)));
                    lemma_crumbs_push(done, cur@);
                    assert(pairs_view(segs@) == crumbs_of(d2));
                    assert(done + seq![cur@] =~= d2);
                    done = d2;
                }
                cur = Vec::new();
            }
            assert(cur@ =~= Seq::<char>::empty());
        } else {
            cur.push(ch);
        }
        i = i + 1;
    }
    proof {
        assert(tv.skip(t as int) =~= Seq::<char>::empty());
    }
    if cur.len() > 0 {
        let ghost d2 = done.push(cur@);
        acc.push('/');
        let mut j: usize = 0;
        let ghost acc0 = acc@;
        while j < cur.len()
            invariant
                j <= cur@.len(),
                acc@ == acc0 + cur@.take(j as int),
            decreases cur.len() - j,
        {
            acc.push(cur[j]);
            assert(cur@.take(j + 1) =~= cur@.take(j as int).push(cur@[j as int]));
            j = j + 1;
        }
        assert(cur@.take(cur@.len() as int) =~= cur@);
        assert(acc@ =~= crumb_path(done, done.len()) + "/"@ + cur@);
        let name = string_from_chars(cur.as_slice());
        let full = string_from_chars(acc.as_slice());
        let ghost before = segs@;
        segs.push((full, name));
        proof {
            assert forall|k: nat| k <= done.len() implies crumb_path(d2, k) == crumb_path(done, k) by {
                lemma_crumb_prefix(done, d2, k);
            }
            assert(crumb_path(d2, d2.len()) =~= crumb_path(done, done.len()) + "/"@ + cur@);
            assert(pairs_view(segs@) =~= pairs_view(before).push((full@, name@)));
            lemma_crumbs_push(done, cur@);
            assert(done + seq![cur@] =~= d2);
            done = d2;
        }
    } else {
        assert(done + Seq::<Seq<char>>::empty() =~= done);
    }
    (path.to_owned(), segs)
}

/// `base` without its trailing slashes, a `/`, then `child`.
pub open spec fn spec_join_path(base: Seq<char>, child: Seq<char>) -> Seq<char> {
    trim_end_slashes(base) + "/"@ + child
}

/// Joins a remote directory and a child name with one `/`, whatever slashes
/// the directory ends with.
pub fn join_path(base: &str, child: &str) -> (r: String)
    ensures
        r@ == spec_join_path(base@, child@),
{
    proof {
        reveal_strlit("/");
    }
    let c = chars_of(base);
    let t = trim_end_slashes_chars(&c);
    let mut out: Vec<char> = Vec::new();
    let mut i: usize = 0;
    while i < t
        invariant
            t <= c@.len(),
            i <= t,
            out@ == c@.take(i as int),
        decreases t - i,
    {
        out.push(c[i]);
        assert(c@.take(i + 1) =~= c@.take(i as int).push(c@[i as int]));
        i = i + 1;
    }
    out.push('/');
    let mut r = string_from_chars(out.as_slice());
    r.append(child);
    assert(r@ =~= spec_join_path(base@, child@));
    r
}

/// The full remote path of `filename` inside `parent`: an absolute
/// `filename` replaces the parent; inside the root (`/`, however many
/// slashes) it is `/` and `filename`; an empty parent yields `filename`
/// alone; otherwise the parent without its trailing slashes, one `/`, and
/// `filename`.
pub open spec fn spec_build_remote_path(parent: Seq<char>, filename: Seq<char>) -> Seq<char> {
    let t = trim_end_slashes(parent);
    if filename.len() > 0 && filename[0] == '/' {
        filename
    } else if parent.len() == 0 {
        filename
    } else if t.len() == 0 {
        "/"@ + filename
    } else {
        t + "/"@ + filename
    }
}

/// Trailing slashes on the directory do not change a join.
pub proof fn law_join_ignores_trailing_slash(base: Seq<char>, child: Seq<char>)
    ensures
        spec_join_path(base.push('/'), child) == spec_join_path(base, child),
{
    assert(base.push('/').drop_last() =~= base);
}

pub fn build_remote_path(parent: &str, filename: &str) -> (r: String)
    ensures
        r@ == spec_build_remote_path(parent@, filename@),
{
    let f = chars_of(filename);
    if f.len() > 0 && f[0] == '/' {
        return filename.to_owned();
    }
    let c = chars_of(parent);
    let t = trim_end_slashes_chars(&c);
    if c.len() == 0 {
        return filename.to_owned();
    }
    if t == 0 {
        proof {
            reveal_strlit("/");
        }
        let mut r = "/".to_owned();
        r.append(filename);
        return r;
    }
    join_path(parent, filename)
}

proof fn lemma_crumbs_push(done: Seq<Seq<char>>, cur: Seq<char>)
    ensures
        crumbs_of(done).push((crumb_path(done.push(cur), done.len() + 1), cur)) == crumbs_of(done.push(cur)),
{
    let d2 = done.push(cur);
    let a = crumbs_of(done).push((crumb_path(d2, done.len() + 1), cur));
    let b = crumbs_of(d2);
    assert(a.len() == b.len());
    assert forall|k: int| 0 <= k < a.len() implies a[k] == b[k] by {
        if 1 <= k <= done.len() {
            lemma_crumb_prefix(done, d2, k as nat);
            assert(done[k - 1] == d2[k - 1]);
        }
    }
    assert(a =~= b);
}

proof fn lemma_crumb_prefix(a: Seq<Seq<char>>, b: Seq<Seq<char>>, k: nat)
    requires
        a.len() <= b.len(),
        k <= a.len(),
        forall|i: int| 0 <= i < a.len() ==> a[i] == b[i],
    ensures
        crumb_path(b, k) == crumb_path(a, k),
    decreases k,
{
    if k > 0 {
        lemma_crumb_prefix(a, b, (k - 1) as nat);
    }
}

} // verus!
