//! The path grammar: where the vector and raster outputs of a job are written.
use vstd::prelude::*;

use crate::text::{join_nonempty, join_nonempty_with, views};

verus! {

/// The colour scheme of an icon.
#[derive(PartialEq, Eq, Structural, Clone, Copy, Debug)]
pub enum Polarity {
    Original,
    Inverted,
}

/// The directory name used for a polarity.
pub open spec fn polarity_name(p: Polarity) -> Seq<char> {
    match p {
        Polarity::Original => "original"@,
        Polarity::Inverted => "inverted"@,
    }
}

impl Polarity {
    /// The directory name used for this polarity.
    pub fn name(&self) -> (r: &'static str)
        ensures
            r@ == polarity_name(*self),
    {
        match self {
            Polarity::Original => "original",
            Polarity::Inverted => "inverted",
        }
    }
}

/// Joins the non-empty parts with `/` and ends the result with `/`.
pub fn join_paths(paths: Vec<&str>) -> (r: String)
    ensures
        r@ == join_nonempty(views(paths@), '/') + seq!['/'],
{
    let sep = "/";
    proof {
        reveal_strlit("/");
    }
    let mut out = join_nonempty_with(&paths, sep);
    out.append(sep);
    out
}

/// Joins the non-empty names with `-`.
pub fn join_filename(names: Vec<&str>) -> (r: String)
    ensures
        r@ == join_nonempty(views(names@), '-'),
{
    let sep = "-";
    proof {
        reveal_strlit("-");
    }
    join_nonempty_with(&names, sep)
}

/// The vector output path of an icon job, from its fields, with the directory
/// already title-cased:
/// `build/{polarity}/svg/{organisation}/{group}/{directory}/` followed by the
/// non-empty ones of name, special and template joined with `-`, and `.svg`.
pub open spec fn icon_svg_path(
    polarity: Polarity,
    organisation: Seq<char>,
    group: Seq<char>,
    directory: Seq<char>,
    name: Seq<char>,
    special: Seq<char>,
    template: Seq<char>,
) -> Seq<char> {
    join_nonempty(
        seq!["build"@, polarity_name(polarity), "svg"@, organisation, group, directory],
        '/',
    ) + seq!['/'] + join_nonempty(seq![name, special, template], '-') + ".svg"@
}

/// The vector output path of a person job:
/// `build/custom/svg/{polarity}/{organisation}/{group}/{label}-{template}-{value}.svg`.
pub open spec fn person_svg_path(
    polarity: Polarity,
    organisation: Seq<char>,
    group: Seq<char>,
    label: Seq<char>,
    template: Seq<char>,
    value: Seq<char>,
) -> Seq<char> {
    "build/custom/svg/"@ + polarity_name(polarity) + seq!['/'] + organisation + seq!['/'] + group
        + seq!['/'] + label + seq!['-'] + template + seq!['-'] + value + ".svg"@
}

/// `s` with its first occurrence of `pat` replaced by `rep`; `s` itself when
/// `pat` does not occur.
pub open spec fn replace_first(s: Seq<char>, pat: Seq<char>, rep: Seq<char>) -> Seq<char>
    decreases s.len(),
{
    if s.len() < pat.len() {
        s
    } else if s.take(pat.len() as int) == pat {
        rep + s.skip(pat.len() as int)
    } else if s.len() == 0 {
        s
    } else {
        seq![s[0]] + replace_first(s.drop_first(), pat, rep)
    }
}

/// The character of a decimal digit.
pub open spec fn digit_char(d: nat) -> char {
    if d == 0 {
        '0'
    } else if d == 1 {
        '1'
    } else if d == 2 {
        '2'
    } else if d == 3 {
        '3'
    } else if d == 4 {
        '4'
    } else if d == 5 {
        '5'
    } else if d == 6 {
        '6'
    } else if d == 7 {
        '7'
    } else if d == 8 {
        '8'
    } else {
        '9'
    }
}

/// The decimal notation of `n`, without leading zeros.
pub open spec fn decimal(n: nat) -> Seq<char>
    decreases n,
{
    if n < 10 {
        seq![digit_char(n)]
    } else {
        decimal(n / 10).push(digit_char(n % 10))
    }
}

/// The resolutions, in pixels, at which every stale icon is rasterized.
pub open spec fn raster_sizes() -> Seq<u32> {
    seq![128u32, 256u32, 512u32, 1024u32, 2048u32]
}

/// The raster output path for a vector path ending in `.svg`: the extension
/// becomes `.png` and the first `svg/` becomes `png/{size}/`.
pub open spec fn raster_path_spec(svg_path: Seq<char>, size: nat) -> Seq<char> {
    replace_first(
        svg_path.take(svg_path.len() - 4) + ".png"@,
        "svg/"@,
        "png/"@ + decimal(size) + seq!['/'],
    )
}

/// The one-character string of a decimal digit.
fn digit_str(d: u32) -> (r: &'static str)
    requires
        d < 10,
    ensures
        r@ == seq![digit_char(d as nat)],
{
    proof {
        reveal_strlit("0");
        reveal_strlit("1");
        reveal_strlit("2");
        reveal_strlit("3");
        reveal_strlit("4");
        reveal_strlit("5");
        reveal_strlit("6");
        reveal_strlit("7");
        reveal_strlit("8");
        reveal_strlit("9");
    }
    if d == 0 {
        "0"
    } else if d == 1 {
        "1"
    } else if d == 2 {
        "2"
    } else if d == 3 {
        "3"
    } else if d == 4 {
        "4"
    } else if d == 5 {
        "5"
    } else if d == 6 {
        "6"
    } else if d == 7 {
        "7"
    } else if d == 8 {
        "8"
    } else {
        "9"
    }
}

/// The decimal notation of `n`.
pub fn decimal_string(n: u32) -> (r: String)
    ensures
        r@ == decimal(n as nat),
    decreases n,
{
    if n < 10 {
        String::from_str(digit_str(n))
    } else {
        let mut s = decimal_string(n / 10);
        s.append(digit_str(n % 10));
        s
    }
}

/// Whether `pat` occurs in `s` at position `i`.
pub open spec fn occurs_at(s: Seq<char>, pat: Seq<char>, i: int) -> bool {
    0 <= i && i + pat.len() <= s.len() && s.subrange(i, i + pat.len()) == pat
}

/// Whether `pat` occurs in `s` at position `i`.
fn matches_at(s: &str, n: usize, pat: &str, m: usize, i: usize) -> (r: bool)
    requires
        n == s@.len(),
        m == pat@.len(),
        i <= n,
    ensures
        r == occurs_at(s@, pat@, i as int),
{
    if m > n - i {
        return false;
    }
    let mut k: usize = 0;
    while k < m
        invariant
            n == s@.len(),
            m == pat@.len(),
            i + m <= n,
            k <= m,
            s@.subrange(i as int, i + k) == pat@.take(k as int),
        decreases m - k,
    {
        if s.get_char(i + k) != pat.get_char(k) {
            assert(s@.subrange(i as int, i + m)[k as int] != pat@[k as int]);
            return false;
        }
        assert(s@.subrange(i as int, i + k + 1) =~= pat@.take(k + 1));
        k = k + 1;
    }
    assert(pat@.take(m as int) =~= pat@);
    true
}

/// With no occurrence of `pat` before position `i`, replacing its first
/// occurrence leaves the first `i` characters alone.
proof fn lemma_replace_first_skip(s: Seq<char>, pat: Seq<char>, rep: Seq<char>, i: int)
    requires
        0 <= i <= s.len(),
        pat.len() > 0,
        forall|j: int| 0 <= j < i ==> !occurs_at(s, pat, j),
    ensures
        replace_first(s, pat, rep) == s.take(i) + replace_first(s.skip(i), pat, rep),
    decreases i,
{
    if i == 0 {
        assert(s.skip(0) =~= s);
        assert(s.take(0) + s =~= s);
    } else if s.len() < pat.len() {
        assert(s.take(i) + s.skip(i) =~= s);
    } else {
        assert(!occurs_at(s, pat, 0));
        assert(s.take(pat.len() as int) != pat) by {
            assert(s.subrange(0, pat.len() as int) =~= s.take(pat.len() as int));
        }
        let t = s.drop_first();
        assert forall|j: int| 0 <= j < i - 1 implies !occurs_at(t, pat, j) by {
            assert(!occurs_at(s, pat, j + 1));
            if j + pat.len() <= t.len() {
                assert(t.subrange(j, j + pat.len()) =~= s.subrange(j + 1, j + 1 + pat.len()));
            }
        }
        lemma_replace_first_skip(t, pat, rep, i - 1);
        assert(t.skip(i - 1) =~= s.skip(i));
        assert(seq![s[0]] + t.take(i - 1) =~= s.take(i));
        assert(seq![s[0]] + (t.take(i - 1) + replace_first(t.skip(i - 1), pat, rep)) =~= s.take(i)
            + replace_first(s.skip(i), pat, rep));
    }
}

/// `s` with the first occurrence of `pat` replaced by `rep`.
pub fn replace_first_exec(s: &str, pat: &str, rep: &str) -> (r: String)
    requires
        pat@.len() > 0,
    ensures
        r@ == replace_first(s@, pat@, rep@),
{
    let n = s.unicode_len();
    let m = pat.unicode_len();
    let mut i: usize = 0;
    while i < n
        invariant
            n == s@.len(),
            m == pat@.len(),
            m > 0,
            i <= n,
            forall|j: int| 0 <= j < i ==> !occurs_at(s@, pat@, j),
        decreases n - i,
    {
        if matches_at(s, n, pat, m, i) {
            proof {
                lemma_replace_first_skip(s@, pat@, rep@, i as int);
                let t = s@.skip(i as int);
                assert(t.take(m as int) =~= s@.subrange(i as int, i + m));
                assert(t.skip(m as int) =~= s@.skip(i + m));
            }
            let head = s.substring_char(0, i);
            let tail = s.substring_char(i + m, n);
            let mut out = String::from_str(head);
            out.append(rep);
            out.append(tail);
            proof {
                assert(head@ =~= s@.take(i as int));
                assert(out@ =~= s@.take(i as int) + (rep@ + s@.skip(i + m)));
            }
            return out;
        }
        i = i + 1;
    }
    proof {
        lemma_replace_first_skip(s@, pat@, rep@, n as int);
        assert(s@.take(n as int) =~= s@);
        assert(s@.skip(n as int) =~= Seq::<char>::empty());
        assert(replace_first(Seq::<char>::empty(), pat@, rep@) == Seq::<char>::empty());
        assert(s@ + Seq::<char>::empty() =~= s@);
    }
    String::from_str(s)
}

/// The raster output path of the vector file `svg_path` at `size` pixels.
pub fn raster_path(svg_path: &str, size: u32) -> (r: String)
    requires
        crate::hashes::is_svg_path(svg_path@),
    ensures
        r@ == raster_path_spec(svg_path@, size as nat),
{
    let n = svg_path.unicode_len();
    let mut png = String::from_str(svg_path.substring_char(0, n - 4));
    png.append(".png");
    let mut rep = String::from_str("png/");
    rep.append(decimal_string(size).as_str());
    rep.append("/");
    proof {
        reveal_strlit("/");
        reveal_strlit("svg/");
        assert("/"@ =~= seq!['/']);
        assert(rep@ =~= "png/"@ + decimal(size as nat) + seq!['/']);
        assert(png@ =~= svg_path@.take(svg_path@.len() - 4) + ".png"@);
    }
    replace_first_exec(png.as_str(), "svg/", rep.as_str())
}

} // verus!
