//! Content hashes of the vector outputs, the snapshot taken before a run, and
//! the decision which raster outputs must be regenerated.
use sha2::Digest;
use vstd::prelude::*;

use crate::paths::{raster_path, raster_path_spec, raster_sizes};

verus! {

/// The SHA-256 digest of `content`, written as upper-case hexadecimal.
pub uninterp spec fn sha256_upper_hex(content: Seq<u8>) -> Seq<char>;

/// Whether `c` is a digit or an upper-case letter of hexadecimal.
pub open spec fn is_upper_hex_digit(c: char) -> bool {
    ('0' <= c && c <= '9') || ('A' <= c && c <= 'F')
}

/// Relies on `sha2::Sha256::digest` and the `UpperHex` formatting of its
/// output: the 32-byte digest of the bytes, which depends on them alone,
/// written as two upper-case hexadecimal digits per byte.
#[verifier::external_body]
fn sha256_hex(content: &Vec<u8>) -> (r: String)
    ensures
        r@ == sha256_upper_hex(content@),
        r@.len() == 64,
        forall|i: int| 0 <= i < r@.len() ==> is_upper_hex_digit(#[trigger] r@[i]),
{
    format!("{:X}", sha2::Sha256::digest(content.as_slice()))
}

/// The content hash of a file's bytes: 64 upper-case hexadecimal digits.
pub fn calc_hash(content: &Vec<u8>) -> (r: String)
    ensures
        r@ == sha256_upper_hex(content@),
        r@.len() == 64,
        forall|i: int| 0 <= i < r@.len() ==> is_upper_hex_digit(#[trigger] r@[i]),
{
    sha256_hex(content)
}

/// Whether `p` names a vector file: its file name is more than the
/// extension `.svg`.
pub open spec fn is_svg_path(p: Seq<char>) -> bool {
    &&& p.len() > 4
    &&& p.skip(p.len() - 4) == ".svg"@
    &&& p[p.len() - 5] != '/'
}

/// Whether `path` names a vector file.
pub fn is_svg_file(path: &str) -> (r: bool)
    ensures
        r == is_svg_path(path@),
{
    let n = path.unicode_len();
    if n <= 4 {
        return false;
    }
    proof {
        reveal_strlit(".svg");
    }
    let tail = path.substring_char(n - 4, n);
    let r = crate::text::str_eq(tail, ".svg") && path.get_char(n - 5) != '/';
    proof {
        assert(tail@ =~= path@.skip(n - 4));
    }
    r
}

/// The value recorded last for `path`, if any.
pub open spec fn lookup(entries: Seq<(Seq<char>, Seq<char>)>, path: Seq<char>) -> Option<
    Seq<char>,
>
    decreases entries.len(),
{
    if entries.len() == 0 {
        None
    } else if entries.last().0 == path {
        Some(entries.last().1)
    } else {
        lookup(entries.drop_last(), path)
    }
}

/// The recorded content hashes of vector files, by path; a later record of
/// a path replaces an earlier one.
#[derive(Clone, Debug)]
pub struct HashIndex {
    entries: Vec<(String, String)>,
}

impl View for HashIndex {
    type V = Seq<(Seq<char>, Seq<char>)>;

    closed spec fn view(&self) -> Seq<(Seq<char>, Seq<char>)> {
        self.entries@.map_values(|e: (String, String)| (e.0@, e.1@))
    }
}

impl HashIndex {
    /// An index with no records.
    pub fn new() -> (r: HashIndex)
        ensures
            r@ == Seq::<(Seq<char>, Seq<char>)>::empty(),
    {
        let r = HashIndex { entries: Vec::new() };
        assert(r@ =~= Seq::<(Seq<char>, Seq<char>)>::empty());
        r
    }

    /// Records `hash` for `path`.
    pub fn insert(&mut self, path: String, hash: String)
        ensures
            final(self)@ == old(self)@.push((path@, hash@)),
    {
        self.entries.push((path, hash));
        assert(self@ =~= old(self)@.push((path@, hash@)));
    }

    /// The hash recorded last for `path`.
    pub fn get(&self, path: &str) -> (r: Option<String>)
        ensures
            r matches Some(h) ==> lookup(self@, path@) == Some(h@),
            r is None ==> lookup(self@, path@) is None,
    {
        let mut i: usize = self.entries.len();
        assert(self@.take(i as int) =~= self@);
        while i > 0
            invariant
                i <= self@.len(),
                self@.len() == self.entries@.len(),
                lookup(self@, path@) == lookup(self@.take(i as int), path@),
            decreases i,
        {
            let e = &self.entries[i - 1];
            proof {
                assert(self@.take(i as int).drop_last() =~= self@.take(i - 1));
                assert(self@.take(i as int).last() == (e.0@, e.1@));
            }
            if crate::text::str_eq(e.0.as_str(), path) {
                return Some(e.1.clone());
            }
            i = i - 1;
        }
        None
    }
}

/// The records that hashing a list of files gives: one per vector file, in
/// order, with the hash of its content.
pub open spec fn snapshot_of(files: Seq<(String, Vec<u8>)>) -> Seq<(Seq<char>, Seq<char>)>
    decreases files.len(),
{
    if files.len() == 0 {
        Seq::<(Seq<char>, Seq<char>)>::empty()
    } else {
        let init = snapshot_of(files.drop_last());
        let f = files.last();
        if is_svg_path(f.0@) {
            init.push((f.0@, sha256_upper_hex(f.1@)))
        } else {
            init
        }
    }
}

/// Records the content hash of every vector file among `files`, each given
/// by its path and content, in order.
pub fn read_in_hashes(hashes: &mut HashIndex, files: &Vec<(String, Vec<u8>)>)
    ensures
        final(hashes)@ == old(hashes)@ + snapshot_of(files@),
{
    let mut i: usize = 0;
    proof {
        assert(files@.take(0) =~= Seq::<(String, Vec<u8>)>::empty());
        assert(old(hashes)@ + Seq::<(Seq<char>, Seq<char>)>::empty() =~= old(hashes)@);
    }
    while i < files.len()
        invariant
            i <= files@.len(),
            hashes@ == old(hashes)@ + snapshot_of(files@.take(i as int)),
        decreases files@.len() - i,
    {
        let f = &files[i];
        proof {
            assert(files@.take(i + 1).drop_last() =~= files@.take(i as int));
        }
        if is_svg_file(f.0.as_str()) {
            let h = calc_hash(&f.1);
            hashes.insert(f.0.clone(), h);
            proof {
                assert(hashes@ =~= old(hashes)@ + snapshot_of(files@.take(i + 1)));
            }
        }
        i = i + 1;
    }
    proof {
        assert(files@.take(files@.len() as int) =~= files@);
    }
}

/// One rasterization unit: a vector file, the raster file it becomes, and
/// its size in pixels.
#[derive(Clone, Debug)]
pub struct RasterUnit {
    pub svg_path: String,
    pub png_path: String,
    pub size: u32,
}

/// Whether a vector file must be rasterized again: it has no recorded hash,
/// or a different one.
pub open spec fn is_stale(old_hash: Option<Seq<char>>, new_hash: Seq<char>) -> bool {
    match old_hash {
        None => true,
        Some(h) => h != new_hash,
    }
}

/// The rasterization units of one vector file, as (vector path, raster path,
/// size): none when it is unchanged, else one per raster size.
pub open spec fn raster_units_spec(
    svg_path: Seq<char>,
    old_hash: Option<Seq<char>>,
    new_hash: Seq<char>,
) -> Seq<(Seq<char>, Seq<char>, u32)> {
    if is_stale(old_hash, new_hash) {
        raster_sizes().map_values(
            |size: u32| (svg_path, raster_path_spec(svg_path, size as nat), size),
        )
    } else {
        Seq::<(Seq<char>, Seq<char>, u32)>::empty()
    }
}

/// The views of a list of rasterization units.
pub open spec fn unit_views(s: Seq<RasterUnit>) -> Seq<(Seq<char>, Seq<char>, u32)> {
    s.map_values(|u: RasterUnit| (u.svg_path@, u.png_path@, u.size))
}

/// The resolutions at which every stale icon is rasterized.
pub fn raster_size_list() -> (r: Vec<u32>)
    ensures
        r@ == raster_sizes(),
{
    let r: Vec<u32> = vec![128u32, 256u32, 512u32, 1024u32, 2048u32];
    assert(r@ =~= raster_sizes());
    r
}

/// The rasterization units of one vector file, given the hash recorded for
/// it before the run and its hash now.
pub fn raster_units_for(svg_path: &str, old_hash: &Option<String>, new_hash: &str) -> (r: Vec<
    RasterUnit,
>)
    requires
        is_svg_path(svg_path@),
    ensures
        unit_views(r@) == raster_units_spec(
            svg_path@,
            match old_hash {
                Some(h) => Some(h@),
                None => None,
            },
            new_hash@,
        ),
{
    let ghost old_v = match old_hash {
        Some(h) => Some(h@),
        None => None::<Seq<char>>,
    };
    let stale = match old_hash {
        Some(h) => !crate::text::str_eq(h.as_str(), new_hash),
        None => true,
    };
    let mut out: Vec<RasterUnit> = Vec::new();
    if !stale {
        assert(unit_views(out@) =~= Seq::<(Seq<char>, Seq<char>, u32)>::empty());
        return out;
    }
    let sizes = raster_size_list();
    let ghost full = raster_units_spec(svg_path@, old_v, new_hash@);
    let mut k: usize = 0;
    assert(unit_views(out@) =~= full.take(0));
    while k < sizes.len()
        invariant
            is_svg_path(svg_path@),
            sizes@ == raster_sizes(),
            is_stale(old_v, new_hash@),
            full == raster_units_spec(svg_path@, old_v, new_hash@),
            k <= sizes@.len(),
            unit_views(out@) == full.take(k as int),
        decreases sizes@.len() - k,
    {
        let size = sizes[k];
        let unit = RasterUnit {
            svg_path: String::from_str(svg_path),
            png_path: raster_path(svg_path, size),
            size: size,
        };
        let ghost before = out@;
        out.push(unit);
        assert(full[k as int] == (svg_path@, raster_path_spec(svg_path@, size as nat), size));
        assert(unit_views(out@) =~= unit_views(before).push(full[k as int]));
        assert(full.take(k + 1) =~= full.take(k as int).push(full[k as int]));
        k = k + 1;
    }
    assert(full.take(5) =~= full);
    out
}

/// The rasterization units of a list of files, each given by its path and
/// current content, against the hashes recorded before the run.
pub open spec fn raster_plan_spec(
    snapshot: Seq<(Seq<char>, Seq<char>)>,
    files: Seq<(String, Vec<u8>)>,
) -> Seq<(Seq<char>, Seq<char>, u32)>
    decreases files.len(),
{
    if files.len() == 0 {
        Seq::<(Seq<char>, Seq<char>, u32)>::empty()
    } else {
        let init = raster_plan_spec(snapshot, files.drop_last());
        let f = files.last();
        if is_svg_path(f.0@) {
            init + raster_units_spec(f.0@, lookup(snapshot, f.0@), sha256_upper_hex(f.1@))
        } else {
            init
        }
    }
}

/// The rasterization units of the vector files among `files`: every file
/// whose hash differs from the one recorded in `hashes`, or has none
/// recorded, gets one unit per raster size; an unchanged file gets none.
pub fn raster_plan(hashes: &HashIndex, files: &Vec<(String, Vec<u8>)>) -> (r: Vec<RasterUnit>)
    ensures
        unit_views(r@) == raster_plan_spec(hashes@, files@),
{
    let mut out: Vec<RasterUnit> = Vec::new();
    let mut i: usize = 0;
    proof {
        assert(files@.take(0) =~= Seq::<(String, Vec<u8>)>::empty());
        assert(unit_views(out@) =~= Seq::<(Seq<char>, Seq<char>, u32)>::empty());
    }
    while i < files.len()
        invariant
            i <= files@.len(),
            unit_views(out@) == raster_plan_spec(hashes@, files@.take(i as int)),
        decreases files@.len() - i,
    {
        let f = &files[i];
        proof {
            assert(files@.take(i + 1).drop_last() =~= files@.take(i as int));
        }
        if is_svg_file(f.0.as_str()) {
            let old_hash = hashes.get(f.0.as_str());
            let new_hash = calc_hash(&f.1);
            let mut units = raster_units_for(f.0.as_str(), &old_hash, new_hash.as_str());
            let ghost a = out@;
            let ghost b = units@;
            out.append(&mut units);
            proof {
                assert(unit_views(a + b) =~= unit_views(a) + unit_views(b));
            }
        }
        i = i + 1;
    }
    proof {
        assert(files@.take(files@.len() as int) =~= files@);
    }
    out
}

/// A vector file whose hash equals the recorded one gets no rasterization
/// unit; one with another hash, or none recorded, gets one unit per raster
/// size, each written to its raster path.
pub proof fn lemma_incremental_correctness(
    svg_path: Seq<char>,
    old_hash: Option<Seq<char>>,
    new_hash: Seq<char>,
)
    ensures
        old_hash == Some(new_hash) ==> raster_units_spec(svg_path, old_hash, new_hash).len() == 0,
        old_hash != Some(new_hash) ==> {
            let units = raster_units_spec(svg_path, old_hash, new_hash);
            &&& units.len() == raster_sizes().len()
            &&& forall|i: int|
                0 <= i < units.len() ==> units[i] == (
                    svg_path,
                    raster_path_spec(svg_path, raster_sizes()[i] as nat),
                    raster_sizes()[i],
                )
        },
{
}

/// In the records of a list of files, a vector file's path maps to the hash
/// of the last file with that path.
proof fn lemma_snapshot_lookup(files: Seq<(String, Vec<u8>)>, i: int)
    requires
        0 <= i < files.len(),
        is_svg_path(files[i].0@),
        forall|j: int| i < j < files.len() ==> files[j].0@ != files[i].0@,
    ensures
        lookup(snapshot_of(files), files[i].0@) == Some(sha256_upper_hex(files[i].1@)),
    decreases files.len(),
{
    let p = files[i].0@;
    let init = snapshot_of(files.drop_last());
    let last = files.last();
    if i < files.len() - 1 {
        lemma_snapshot_lookup(files.drop_last(), i);
        assert(files.drop_last()[i] == files[i]);
        assert(last.0@ != p);
        if is_svg_path(last.0@) {
            assert(snapshot_of(files) == init.push((last.0@, sha256_upper_hex(last.1@))));
            assert(snapshot_of(files).drop_last() =~= init);
        }
    } else {
        assert(snapshot_of(files) == init.push((p, sha256_upper_hex(files[i].1@))));
    }
}

/// Planning against the records of the same files gives no unit, for every
/// prefix of the files.
proof fn lemma_plan_prefix_empty(files: Seq<(String, Vec<u8>)>, k: int)
    requires
        0 <= k <= files.len(),
        forall|i: int, j: int| 0 <= i < j < files.len() ==> files[i].0@ != files[j].0@,
    ensures
        raster_plan_spec(snapshot_of(files), files.take(k)) == Seq::<
            (Seq<char>, Seq<char>, u32),
        >::empty(),
    decreases k,
{
    if k > 0 {
        lemma_plan_prefix_empty(files, k - 1);
        assert(files.take(k).drop_last() =~= files.take(k - 1));
        let f = files[k - 1];
        if is_svg_path(f.0@) {
            lemma_snapshot_lookup(files, k - 1);
            assert(files.take(k).last() == f);
            assert(Seq::<(Seq<char>, Seq<char>, u32)>::empty() + Seq::<
                (Seq<char>, Seq<char>, u32),
            >::empty() =~= Seq::<(Seq<char>, Seq<char>, u32)>::empty());
        }
    } else {
        assert(files.take(0) =~= Seq::<(String, Vec<u8>)>::empty());
    }
}

/// Idempotence of the raster stage: when the files are unchanged since their
/// hashes were recorded, nothing is rasterized again.
pub proof fn lemma_unchanged_tree_plans_nothing(files: Seq<(String, Vec<u8>)>)
    requires
        forall|i: int, j: int| 0 <= i < j < files.len() ==> files[i].0@ != files[j].0@,
    ensures
        raster_plan_spec(snapshot_of(files), files) == Seq::<(Seq<char>, Seq<char>, u32)>::empty(),
{
    lemma_plan_prefix_empty(files, files.len() as int);
    assert(files.take(files.len() as int) =~= files);
}

} // verus!
