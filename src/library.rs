//! The library manifests: every vector file of the output tree becomes an
//! entry, grouped by an identifier derived from its directory.
use base64::Engine;
use vstd::prelude::*;

use crate::hashes::{is_svg_file, is_svg_path};
use crate::text::{join_nonempty, join_nonempty_with, split_on, split_spec, str_eq, views};

verus! {

/// Whether a piece of a `/`-split path is a named component, not the empty
/// piece of a repeated or outer separator nor `.` or `..`.
pub open spec fn is_normal(s: Seq<char>) -> bool {
    s.len() > 0 && s != "."@ && s != ".."@
}

/// The named components of a list of path pieces, in order.
pub open spec fn keep_normal(parts: Seq<Seq<char>>) -> Seq<Seq<char>>
    decreases parts.len(),
{
    if parts.len() == 0 {
        Seq::<Seq<char>>::empty()
    } else if is_normal(parts.last()) {
        keep_normal(parts.drop_last()).push(parts.last())
    } else {
        keep_normal(parts.drop_last())
    }
}

/// The named components of a path.
pub open spec fn normal_segments(p: Seq<char>) -> Seq<Seq<char>> {
    keep_normal(split_spec(p, '/'))
}

/// The segments after the last one equal to `root` (all of them when none
/// is), leaving out every segment `svg`.
pub open spec fn after_root(segs: Seq<Seq<char>>, root: Seq<char>) -> Seq<Seq<char>>
    decreases segs.len(),
{
    if segs.len() == 0 {
        Seq::<Seq<char>>::empty()
    } else if segs.last() == root {
        Seq::<Seq<char>>::empty()
    } else if segs.last() == "svg"@ {
        after_root(segs.drop_last(), root)
    } else {
        after_root(segs.drop_last(), root).push(segs.last())
    }
}

/// Whether a segment names a polarity.
pub open spec fn is_polarity_segment(s: Seq<char>) -> bool {
    s == "original"@ || s == "inverted"@
}

/// The segments that name no polarity, in order.
pub open spec fn plain_segments(segs: Seq<Seq<char>>) -> Seq<Seq<char>>
    decreases segs.len(),
{
    if segs.len() == 0 {
        Seq::<Seq<char>>::empty()
    } else if is_polarity_segment(segs.last()) {
        plain_segments(segs.drop_last())
    } else {
        plain_segments(segs.drop_last()).push(segs.last())
    }
}

/// The segments that name a polarity, in order.
pub open spec fn polarity_segments(segs: Seq<Seq<char>>) -> Seq<Seq<char>>
    decreases segs.len(),
{
    if segs.len() == 0 {
        Seq::<Seq<char>>::empty()
    } else if is_polarity_segment(segs.last()) {
        polarity_segments(segs.drop_last()).push(segs.last())
    } else {
        polarity_segments(segs.drop_last())
    }
}

/// The segments with those naming a polarity moved to the end.
pub open spec fn polarity_last(segs: Seq<Seq<char>>) -> Seq<Seq<char>> {
    plain_segments(segs) + polarity_segments(segs)
}

/// The group identifier of a directory: its segments after `root`, without
/// `svg`, polarity moved to the end, joined with `-`.
pub open spec fn path_id_spec(root: Seq<char>, dir: Seq<char>) -> Seq<char> {
    id_of_segments(root, normal_segments(dir))
}

/// The group identifier of a list of path segments.
pub open spec fn id_of_segments(root: Seq<char>, segs: Seq<Seq<char>>) -> Seq<char> {
    join_nonempty(polarity_last(after_root(segs, root)), '-')
}

/// `s` without a final `.svg`.
pub open spec fn strip_svg(s: Seq<char>) -> Seq<char> {
    if s.len() >= 4 && s.skip(s.len() - 4) == ".svg"@ {
        s.take(s.len() - 4)
    } else {
        s
    }
}

/// `s` with every `-` replaced by a space.
pub open spec fn dashes_to_spaces(s: Seq<char>) -> Seq<char> {
    s.map_values(|c: char| if c == '-' { ' ' } else { c })
}

/// The segments of a file path that make its title: those after `root`,
/// without `svg`, the file name without its `.svg`.
pub open spec fn title_segments(root: Seq<char>, path: Seq<char>) -> Seq<Seq<char>> {
    let segs = after_root(normal_segments(path), root);
    if segs.len() == 0 {
        segs
    } else {
        segs.update(segs.len() - 1, strip_svg(segs.last()))
    }
}

/// The title of a file: its title segments, polarity moved to the end, each
/// with dashes as spaces, joined with spaces.
pub open spec fn path_title_spec(root: Seq<char>, path: Seq<char>) -> Seq<char> {
    join_nonempty(polarity_last(title_segments(root, path)).map_values(|s: Seq<char>| dashes_to_spaces(s)), ' ')
}

/// The named components of `path`.
pub fn path_segments<'a>(path: &'a str) -> (r: Vec<&'a str>)
    ensures
        views(r@) == normal_segments(path@),
{
    let parts = split_on(path, '/');
    let mut out: Vec<&'a str> = Vec::new();
    let mut i: usize = 0;
    proof {
        reveal_strlit(".");
        reveal_strlit("..");
        assert(views(parts@).take(0) =~= Seq::<Seq<char>>::empty());
        assert(views(out@) =~= Seq::<Seq<char>>::empty());
    }
    while i < parts.len()
        invariant
            i <= parts@.len(),
            views(out@) == keep_normal(views(parts@).take(i as int)),
        decreases parts@.len() - i,
    {
        let p: &str = parts[i];
        proof {
            assert(views(parts@).take(i + 1).drop_last() =~= views(parts@).take(i as int));
        }
        if p.unicode_len() != 0 && !str_eq(p, ".") && !str_eq(p, "..") {
            let ghost before = out@;
            out.push(p);
            proof {
                assert(views(out@) =~= views(before).push(p@));
            }
        }
        i = i + 1;
    }
    proof {
        assert(views(parts@).take(parts@.len() as int) =~= views(parts@));
    }
    out
}

/// The segments after the last one equal to `root`, without `svg`.
fn segments_after_root<'a>(segs: &Vec<&'a str>, root: &str) -> (r: Vec<&'a str>)
    ensures
        views(r@) == after_root(views(segs@), root@),
{
    let mut out: Vec<&'a str> = Vec::new();
    let mut i: usize = 0;
    proof {
        reveal_strlit("svg");
        assert(views(segs@).take(0) =~= Seq::<Seq<char>>::empty());
        assert(views(out@) =~= Seq::<Seq<char>>::empty());
    }
    while i < segs.len()
        invariant
            i <= segs@.len(),
            views(out@) == after_root(views(segs@).take(i as int), root@),
        decreases segs@.len() - i,
    {
        let s: &str = segs[i];
        proof {
            assert(views(segs@).take(i + 1).drop_last() =~= views(segs@).take(i as int));
        }
        if str_eq(s, root) {
            out = Vec::new();
            proof {
                assert(views(out@) =~= Seq::<Seq<char>>::empty());
            }
        } else if !str_eq(s, "svg") {
            let ghost before = out@;
            out.push(s);
            proof {
                assert(views(out@) =~= views(before).push(s@));
            }
        }
        i = i + 1;
    }
    proof {
        assert(views(segs@).take(segs@.len() as int) =~= views(segs@));
    }
    out
}

/// The segments with those naming a polarity moved to the end.
fn move_polarity_last<'a>(segs: &Vec<&'a str>) -> (r: Vec<&'a str>)
    ensures
        views(r@) == polarity_last(views(segs@)),
{
    let mut plain: Vec<&'a str> = Vec::new();
    let mut pols: Vec<&'a str> = Vec::new();
    let mut i: usize = 0;
    proof {
        reveal_strlit("original");
        reveal_strlit("inverted");
        assert(views(segs@).take(0) =~= Seq::<Seq<char>>::empty());
        assert(views(plain@) =~= Seq::<Seq<char>>::empty());
        assert(views(pols@) =~= Seq::<Seq<char>>::empty());
    }
    while i < segs.len()
        invariant
            i <= segs@.len(),
            views(plain@) == plain_segments(views(segs@).take(i as int)),
            views(pols@) == polarity_segments(views(segs@).take(i as int)),
        decreases segs@.len() - i,
    {
        let s: &str = segs[i];
        proof {
            assert(views(segs@).take(i + 1).drop_last() =~= views(segs@).take(i as int));
        }
        if str_eq(s, "original") || str_eq(s, "inverted") {
            let ghost before = pols@;
            pols.push(s);
            proof {
                assert(views(pols@) =~= views(before).push(s@));
            }
        } else {
            let ghost before = plain@;
            plain.push(s);
            proof {
                assert(views(plain@) =~= views(before).push(s@));
            }
        }
        i = i + 1;
    }
    proof {
        assert(views(segs@).take(segs@.len() as int) =~= views(segs@));
    }
    let ghost a = plain@;
    let ghost b = pols@;
    plain.append(&mut pols);
    proof {
        assert(views(a + b) =~= views(a) + views(b));
    }
    plain
}

/// The group identifier of the directory `path`: its named components after
/// the last one equal to `match_name`, without `svg`, with a polarity
/// component moved to the end, joined with `-`.
pub fn path_to_id(match_name: &str, path: &str) -> (r: String)
    ensures
        r@ == path_id_spec(match_name@, path@),
{
    let segs = path_segments(path);
    id_from_segments(match_name, &segs)
}

/// The group identifier of a list of path segments.
fn id_from_segments(match_name: &str, segs: &Vec<&str>) -> (r: String)
    ensures
        r@ == id_of_segments(match_name@, views(segs@)),
{
    let kept = segments_after_root(segs, match_name);
    let ordered = move_polarity_last(&kept);
    proof {
        reveal_strlit("-");
    }
    join_nonempty_with(&ordered, "-")
}

/// `s` with every `-` replaced by a space.
fn dashes_to_spaces_exec(s: &str) -> (r: String)
    ensures
        r@ == dashes_to_spaces(s@),
{
    let n = s.unicode_len();
    let mut out = String::new();
    let mut i: usize = 0;
    proof {
        reveal_strlit(" ");
    }
    while i < n
        invariant
            n == s@.len(),
            i <= n,
            out@ == dashes_to_spaces(s@.take(i as int)),
        decreases n - i,
    {
        let c = s.get_char(i);
        let ghost before = out@;
        if c == '-' {
            out.append(" ");
            proof {
                reveal_strlit(" ");
            }
            assert(" "@ =~= seq![' ']);
        } else {
            let one = s.substring_char(i, i + 1);
            assert(one@ =~= seq![c]);
            out.append(one);
        }
        assert(out@ =~= before.push(if c == '-' { ' ' } else { c }));
        assert(s@.take(i + 1) =~= s@.take(i as int).push(c));
        assert(dashes_to_spaces(s@.take(i + 1)) =~= dashes_to_spaces(s@.take(i as int)).push(
            if c == '-' { ' ' } else { c },
        ));
        i = i + 1;
    }
    assert(s@.take(n as int) =~= s@);
    out
}

/// `s` without a final `.svg`.
fn strip_svg_exec<'a>(s: &'a str) -> (r: &'a str)
    ensures
        r@ == strip_svg(s@),
{
    let n = s.unicode_len();
    proof {
        reveal_strlit(".svg");
    }
    if n >= 4 && str_eq(s.substring_char(n - 4, n), ".svg") {
        assert(s@.subrange(n - 4, n as int) =~= s@.skip(n - 4));
        let r = s.substring_char(0, n - 4);
        assert(r@ =~= s@.take(n - 4));
        r
    } else {
        proof {
            if n >= 4 {
                assert(s@.subrange(n - 4, n as int) =~= s@.skip(n - 4));
            }
        }
        s
    }
}

/// The title of the file `path`: its named components after the last one
/// equal to `match_name`, without `svg`, the file name without `.svg`, a
/// polarity component moved to the end, dashes as spaces, joined with
/// spaces.
pub fn path_to_title(match_name: &str, path: &str) -> (r: String)
    ensures
        r@ == path_title_spec(match_name@, path@),
{
    let segs = path_segments(path);
    let mut kept = segments_after_root(&segs, match_name);
    let len = kept.len();
    if len > 0 {
        let last = strip_svg_exec(kept[len - 1]);
        kept.set(len - 1, last);
    }
    let ghost t = title_segments(match_name@, path@);
    assert(views(kept@) =~= t);
    let ordered = move_polarity_last(&kept);
    let mut spaced: Vec<String> = Vec::new();
    let mut i: usize = 0;
    let ghost target = polarity_last(t).map_values(|s: Seq<char>| dashes_to_spaces(s));
    assert(target.take(0) =~= Seq::<Seq<char>>::empty());
    while i < ordered.len()
        invariant
            i <= ordered@.len(),
            views(ordered@) == polarity_last(t),
            target == polarity_last(t).map_values(|s: Seq<char>| dashes_to_spaces(s)),
            spaced@.len() == i,
            forall|k: int| 0 <= k < i ==> spaced@[k]@ == target[k],
        decreases ordered@.len() - i,
    {
        let s = dashes_to_spaces_exec(ordered[i]);
        assert(ordered@[i as int]@ == views(ordered@)[i as int]);
        spaced.push(s);
        i = i + 1;
    }
    let mut refs: Vec<&str> = Vec::new();
    let mut k: usize = 0;
    while k < spaced.len()
        invariant
            k <= spaced@.len(),
            refs@.len() == k,
            forall|j: int| 0 <= j < k ==> refs@[j]@ == spaced@[j]@,
        decreases spaced@.len() - k,
    {
        refs.push(spaced[k].as_str());
        k = k + 1;
    }
    assert(views(refs@) =~= target);
    proof {
        reveal_strlit(" ");
    }
    join_nonempty_with(&refs, " ")
}

/// The character of a 6-bit value in the standard base64 alphabet.
pub open spec fn base64_char(v: nat) -> char {
    "ABCDEFGHIJKLMNOPQRSTUVWXYZabcdefghijklmnopqrstuvwxyz0123456789+/"@[v as int]
}

/// The standard base64 encoding of `b`, padded with `=`: every group of
/// three bytes becomes four characters, each for six bits, most significant
/// first; a last group of one or two bytes becomes two or three characters
/// followed by `==` or `=`.
pub open spec fn base64_spec(b: Seq<u8>) -> Seq<char>
    decreases b.len(),
{
    if b.len() == 0 {
        Seq::<char>::empty()
    } else if b.len() == 1 {
        seq![base64_char(b[0] as nat / 4), base64_char((b[0] as nat % 4) * 16), '=', '=']
    } else if b.len() == 2 {
        seq![
            base64_char(b[0] as nat / 4),
            base64_char((b[0] as nat % 4) * 16 + b[1] as nat / 16),
            base64_char((b[1] as nat % 16) * 4),
            '=',
        ]
    } else {
        seq![
            base64_char(b[0] as nat / 4),
            base64_char((b[0] as nat % 4) * 16 + b[1] as nat / 16),
            base64_char((b[1] as nat % 16) * 4 + b[2] as nat / 64),
            base64_char(b[2] as nat % 64),
        ] + base64_spec(b.skip(3))
    }
}

/// Relies on `base64::engine::general_purpose::STANDARD.encode`: the padded
/// encoding in the standard alphabet. It panics when the encoded length
/// overflows `usize`, which the bound on the input rules out.
#[verifier::external_body]
fn encode_base64(content: &Vec<u8>) -> (r: String)
    requires
        content@.len() <= usize::MAX / 2,
    ensures
        r@ == base64_spec(content@),
{
    base64::engine::general_purpose::STANDARD.encode(content.as_slice())
}

/// The base64 encoding of a file's content.
pub fn file_to_base64(content: &Vec<u8>) -> (r: String)
    requires
        content@.len() <= usize::MAX / 2,
    ensures
        r@ == base64_spec(content@),
{
    encode_base64(content)
}

/// The data URI of a vector file's content.
pub open spec fn data_uri_spec(content: Seq<u8>) -> Seq<char> {
    "data:image/svg+xml;base64,"@ + base64_spec(content)
}

/// The data URI of a vector file's content:
/// `data:image/svg+xml;base64,` followed by its base64 encoding.
pub fn data_uri(content: &Vec<u8>) -> (r: String)
    requires
        content@.len() <= usize::MAX / 2,
    ensures
        r@ == data_uri_spec(content@),
{
    let mut out = String::from_str("data:image/svg+xml;base64,");
    out.append(file_to_base64(content).as_str());
    out
}

/// One entry of a library manifest.
#[derive(Clone, Debug)]
pub struct DrawIoLibEntry {
    pub data: String,
    pub w: i32,
    pub h: i32,
    pub title: String,
    pub aspect: String,
}

/// The value of a manifest entry.
pub struct EntryView {
    pub data: Seq<char>,
    pub w: i32,
    pub h: i32,
    pub title: Seq<char>,
    pub aspect: Seq<char>,
}

impl View for DrawIoLibEntry {
    type V = EntryView;

    open spec fn view(&self) -> EntryView {
        EntryView {
            data: self.data@,
            w: self.w,
            h: self.h,
            title: self.title@,
            aspect: self.aspect@,
        }
    }
}

/// The manifest entry of the vector file `path` with content `content`.
pub open spec fn entry_spec(root: Seq<char>, path: Seq<char>, content: Seq<u8>) -> EntryView {
    EntryView {
        data: data_uri_spec(content),
        w: 256,
        h: 256,
        title: path_title_spec(root, path),
        aspect: "fixed"@,
    }
}

/// The group of the vector file `path`: the identifier of its directory.
pub open spec fn file_group_spec(root: Seq<char>, path: Seq<char>) -> Seq<char> {
    let segs = normal_segments(path);
    if segs.len() == 0 {
        id_of_segments(root, segs)
    } else {
        id_of_segments(root, segs.drop_last())
    }
}

/// The manifest entry of one vector file.
pub fn make_entry(match_name: &str, path: &str, content: &Vec<u8>) -> (r: DrawIoLibEntry)
    requires
        content@.len() <= usize::MAX / 2,
    ensures
        r@ == entry_spec(match_name@, path@, content@),
{
    DrawIoLibEntry {
        data: data_uri(content),
        w: 256,
        h: 256,
        title: path_to_title(match_name, path),
        aspect: String::from_str("fixed"),
    }
}

/// The group identifier of the vector file `path`: that of its directory.
pub fn file_group_id(match_name: &str, path: &str) -> (r: String)
    ensures
        r@ == file_group_spec(match_name@, path@),
{
    let mut segs = path_segments(path);
    if segs.len() > 0 {
        let ghost before = segs@;
        segs.pop();
        assert(views(segs@) =~= views(before).drop_last());
    }
    id_from_segments(match_name, &segs)
}

/// The entries of one manifest file, under their group identifier.
#[derive(Clone, Debug)]
pub struct LibraryGroup {
    pub id: String,
    pub entries: Vec<DrawIoLibEntry>,
}

/// The views of a list of entries.
pub open spec fn entry_views(s: Seq<DrawIoLibEntry>) -> Seq<EntryView> {
    s.map_values(|e: DrawIoLibEntry| e@)
}

/// The views of a list of groups.
pub open spec fn group_views(s: Seq<LibraryGroup>) -> Seq<(Seq<char>, Seq<EntryView>)> {
    s.map_values(|g: LibraryGroup| (g.id@, entry_views(g.entries@)))
}

/// The position of the group `id`, or -1.
pub open spec fn group_index(groups: Seq<(Seq<char>, Seq<EntryView>)>, id: Seq<char>) -> int
    decreases groups.len(),
{
    if groups.len() == 0 {
        -1
    } else if groups.last().0 == id {
        groups.len() - 1
    } else {
        group_index(groups.drop_last(), id)
    }
}

/// The groups with `e` added at the end of group `id`, which is added after
/// the others when it is new.
pub open spec fn add_to_group(
    groups: Seq<(Seq<char>, Seq<EntryView>)>,
    id: Seq<char>,
    e: EntryView,
) -> Seq<(Seq<char>, Seq<EntryView>)> {
    let k = group_index(groups, id);
    if k < 0 {
        groups.push((id, seq![e]))
    } else {
        groups.update(k, (id, groups[k].1.push(e)))
    }
}

/// The manifest of a list of files, each given by its path and content:
/// every vector file, in order, adds its entry to the group of its
/// directory; groups come in the order of their first file.
pub open spec fn manifest_spec(root: Seq<char>, files: Seq<(String, Vec<u8>)>) -> Seq<
    (Seq<char>, Seq<EntryView>),
>
    decreases files.len(),
{
    if files.len() == 0 {
        Seq::<(Seq<char>, Seq<EntryView>)>::empty()
    } else {
        let init = manifest_spec(root, files.drop_last());
        let f = files.last();
        if is_svg_path(f.0@) {
            add_to_group(init, file_group_spec(root, f.0@), entry_spec(root, f.0@, f.1@))
        } else {
            init
        }
    }
}

proof fn lemma_group_index_bounds(groups: Seq<(Seq<char>, Seq<EntryView>)>, id: Seq<char>)
    ensures
        -1 <= group_index(groups, id) < groups.len(),
        group_index(groups, id) >= 0 ==> groups[group_index(groups, id)].0 == id,
        group_index(groups, id) < 0 ==> forall|j: int| 0 <= j < groups.len() ==> groups[j].0 != id,
    decreases groups.len(),
{
    if groups.len() > 0 {
        lemma_group_index_bounds(groups.drop_last(), id);
        if group_index(groups, id) < 0 {
            assert forall|j: int| 0 <= j < groups.len() implies groups[j].0 != id by {
                if j < groups.len() - 1 {
                    assert(groups.drop_last()[j] == groups[j]);
                }
            }
        }
    }
}

/// The position of the group `id` among `groups`, or none.
fn find_group(groups: &Vec<LibraryGroup>, id: &str) -> (r: Option<usize>)
    ensures
        r matches Some(k) ==> group_index(group_views(groups@), id@) == k as int,
        r is None ==> group_index(group_views(groups@), id@) < 0,
{
    let ghost gv = group_views(groups@);
    let mut i: usize = groups.len();
    assert(gv.take(i as int) =~= gv);
    while i > 0
        invariant
            i <= groups@.len(),
            gv == group_views(groups@),
            group_index(gv, id@) == group_index(gv.take(i as int), id@),
        decreases i,
    {
        proof {
            assert(gv.take(i as int).drop_last() =~= gv.take(i - 1));
        }
        if str_eq(groups[i - 1].id.as_str(), id) {
            return Some(i - 1);
        }
        i = i - 1;
    }
    None
}

/// Adds `e` at the end of the group `id`, adding the group when it is new.
fn add_entry(groups: &mut Vec<LibraryGroup>, id: String, e: DrawIoLibEntry)
    ensures
        group_views(final(groups)@) == add_to_group(group_views(old(groups)@), id@, e@),
{
    let ghost gv = group_views(groups@);
    proof {
        lemma_group_index_bounds(gv, id@);
    }
    match find_group(groups, id.as_str()) {
        None => {
            let mut entries: Vec<DrawIoLibEntry> = Vec::new();
            entries.push(e);
            groups.push(LibraryGroup { id: id, entries: entries });
            assert(entry_views(entries@) =~= seq![e@]);
            assert(group_views(groups@) =~= add_to_group(gv, id@, e@));
        },
        Some(k) => {
            let mut g = groups.remove(k);
            let ghost old_entries = g.entries@;
            g.entries.push(e);
            assert(entry_views(g.entries@) =~= entry_views(old_entries).push(e@));
            groups.insert(k, g);
            assert(group_views(groups@) =~= add_to_group(gv, id@, e@));
        },
    }
}

/// The manifest of the output tree: every vector file among `files`, each
/// given by its path and content, becomes an entry with its data URI, a
/// fixed 256 by 256 size and its title, in the group of its directory.
pub fn process_entries(match_name: &str, files: &Vec<(String, Vec<u8>)>) -> (r: Vec<LibraryGroup>)
    requires
        forall|i: int| 0 <= i < files@.len() ==> files@[i].1@.len() <= usize::MAX / 2,
    ensures
        group_views(r@) == manifest_spec(match_name@, files@),
{
    let mut groups: Vec<LibraryGroup> = Vec::new();
    let mut i: usize = 0;
    proof {
        assert(files@.take(0) =~= Seq::<(String, Vec<u8>)>::empty());
        assert(group_views(groups@) =~= Seq::<(Seq<char>, Seq<EntryView>)>::empty());
    }
    while i < files.len()
        invariant
            i <= files@.len(),
            forall|i: int| 0 <= i < files@.len() ==> files@[i].1@.len() <= usize::MAX / 2,
            group_views(groups@) == manifest_spec(match_name@, files@.take(i as int)),
        decreases files@.len() - i,
    {
        let f = &files[i];
        proof {
            assert(files@.take(i + 1).drop_last() =~= files@.take(i as int));
        }
        if is_svg_file(f.0.as_str()) {
            let e = make_entry(match_name, f.0.as_str(), &f.1);
            let id = file_group_id(match_name, f.0.as_str());
            add_entry(&mut groups, id, e);
        }
        i = i + 1;
    }
    proof {
        assert(files@.take(files@.len() as int) =~= files@);
    }
    groups
}

/// The path of the manifest file of group `id`: `build/drawio/{id}.xml`.
pub fn manifest_path(id: &str) -> (r: String)
    ensures
        r@ == "build/drawio/"@ + id@ + ".xml"@,
{
    let mut out = String::from_str("build/drawio/");
    out.append(id);
    out.append(".xml");
    out
}

/// A manifest file's text around the JSON array of its entries:
/// `<mxlibrary>{json}</mxlibrary>`.
pub fn frame_library(json: &str) -> (r: String)
    ensures
        r@ == "<mxlibrary>"@ + json@ + "</mxlibrary>"@,
{
    let mut out = String::from_str("<mxlibrary>");
    out.append(json);
    out.append("</mxlibrary>");
    out
}

} // verus!
