//! Credential-free retained-artifact JSON for completed plane acknowledgements.
//!
//! Captured workspace files are classified under documented path prefixes.
//! There is no artifact where the required kinds are not all present, the
//! inventory is truncated or bound to another run, or the JSON is too long.
use vstd::prelude::*;
use vstd::string::*;
#[allow(unused_imports)]
use vstd::utf8::*;

use crate::canonical::{list_of, push_quoted, sort_rows, Row};
#[allow(unused_imports)]
use crate::canonical::{in_row_order, list_text, row_le, row_order_is_unique, row_views, RowView};
use crate::digest::digest_label;
#[allow(unused_imports)]
use crate::digest::sha256_label;
#[allow(unused_imports)]
use crate::json::json_quoted;
use crate::text::{
    chars_of, contains_text, ends_with, is_blank, longer_than, same, split_chars, starts_with,
};
#[allow(unused_imports)]
use crate::text::{
    blank, byte_len, contains, ends, field_added, join, joined_pieces_split_back, split, starts,
    text_holds_what_is_added, text_keeps_what_it_holds, text_le, texts,
};

verus! {

/// The wire limit of the plane for an artifact. Longer JSON is left out so that
/// the acknowledgement still lands.
pub const ACK_ARTIFACT_JSON_MAX_BYTES: usize = 65536;

/// One captured file.
#[derive(Debug, Clone, PartialEq, Eq)]
pub struct ArtifactFile {
    pub path: String,
    pub bytes: u64,
    pub sha256: String,
}

/// What was captured of a run.
#[derive(Debug, Clone, PartialEq, Eq)]
pub struct ArtifactManifest {
    pub run_id: String,
    pub files_truncated: bool,
    pub files: Vec<ArtifactFile>,
}

/// The kind of a file by the prefix of its path.
pub open spec fn kind_of(path: Seq<char>) -> Option<Seq<char>> {
    if starts(path, "app/"@) || starts(path, "application/"@) {
        Some("application"@)
    } else if starts(path, "sdk/"@) || starts(path, "typed_sdk/"@) {
        Some("typed_sdk"@)
    } else if starts(path, "tests/"@) || starts(path, "test/"@) {
        Some("tests"@)
    } else if starts(path, "deploy/"@) || starts(path, "delivery/"@) || starts(
        path,
        "delivery_inputs/"@,
    ) {
        Some("delivery_inputs"@)
    } else {
        None
    }
}

/// The kind of a file by the prefix of its path.
pub fn projection_kind(path: &str) -> (r: Option<&'static str>)
    ensures
        match kind_of(path@) {
            Some(k) => r matches Some(s) && s@ == k,
            None => r is None,
        },
{
    if starts_with(path, "app/") || starts_with(path, "application/") {
        Some("application")
    } else if starts_with(path, "sdk/") || starts_with(path, "typed_sdk/") {
        Some("typed_sdk")
    } else if starts_with(path, "tests/") || starts_with(path, "test/") {
        Some("tests")
    } else if starts_with(path, "deploy/") || starts_with(path, "delivery/") || starts_with(
        path,
        "delivery_inputs/",
    ) {
        Some("delivery_inputs")
    } else {
        None
    }
}

/// Whether a path segment cannot stand in a generated path.
pub open spec fn bad_segment(s: Seq<char>) -> bool {
    s.len() == 0 || s == "."@ || s == ".."@ || ends(s, "."@)
}

/// Whether a path may stand in an artifact: relative, with plain segments.
pub open spec fn valid_path(path: Seq<char>) -> bool {
    &&& path.len() > 0
    &&& !starts(path, "/"@)
    &&& !contains(path, "\\"@)
    &&& !contains(path, "//"@)
    &&& forall|i: int| 0 <= i < split(path, '/').len() ==> !bad_segment(#[trigger] split(path, '/')[i])
}

/// Whether a path may stand in an artifact: relative, with plain segments.
pub fn valid_generated_path(path: &str) -> (r: bool)
    ensures
        r == valid_path(path@),
{
    if path.is_empty() || starts_with(path, "/") || contains_text(path, "\\") || contains_text(
        path,
        "//",
    ) {
        return false;
    }
    let v = chars_of(path);
    let segments = split_chars(&v, '/');
    let mut i: usize = 0;
    while i < segments.len()
        invariant
            i <= segments@.len(),
            texts(segments@) == split(path@, '/'),
            forall|j: int| 0 <= j < i ==> !bad_segment(#[trigger] split(path@, '/')[j]),
        decreases segments@.len() - i,
    {
        let s = segments[i].as_str();
        assert(s@ == split(path@, '/')[i as int]);
        if s.is_empty() || same(s, ".") || same(s, "..") || ends_with(s, ".") {
            assert(bad_segment(split(path@, '/')[i as int]));
            return false;
        }
        i = i + 1;
    }
    assert(split(path@, '/').len() == segments@.len());
    true
}

/// The classified files of the first `n`, numbered in order; none where one of
/// them cannot stand in an artifact. A row holds the path, the number, the
/// digest and the kind.
pub open spec fn classified(files: Seq<ArtifactFile>, n: int) -> Option<Seq<RowView>>
    decreases n,
{
    if n <= 0 || n > files.len() {
        Some(Seq::empty())
    } else {
        match classified(files, n - 1) {
            None => None,
            Some(rows) => match kind_of(files[n - 1].path@) {
                None => Some(rows),
                Some(kind) => if valid_path(files[n - 1].path@) && starts(
                    files[n - 1].sha256@,
                    "sha256:"@,
                ) {
                    Some(
                        rows.push(
                            RowView {
                                a: files[n - 1].path@,
                                n: rows.len() as u64,
                                b: files[n - 1].sha256@,
                                c: kind,
                            },
                        ),
                    )
                } else {
                    None
                },
            },
        }
    }
}

/// The rows in order of their paths; rows with one path keep their order.
pub open spec fn by_path(rows: Seq<RowView>) -> Seq<RowView> {
    choose|s: Seq<RowView>| in_row_order(rows, s)
}

/// Whether one of the rows has a kind.
pub open spec fn covers(rows: Seq<RowView>, kind: Seq<char>) -> bool {
    exists|i: int| 0 <= i < rows.len() && (#[trigger] rows[i]).c == kind
}

/// Whether the rows have every required kind.
pub open spec fn complete(rows: Seq<RowView>) -> bool {
    covers(rows, "application"@) && covers(rows, "typed_sdk"@) && covers(rows, "tests"@) && covers(
        rows,
        "delivery_inputs"@,
    )
}

/// One file as JSON.
pub open spec fn file_text(row: RowView) -> Seq<char> {
    "{\"path\":"@ + json_quoted(row.a) + ",\"kind\":"@ + json_quoted(row.c) + ",\"digest\":"@
        + json_quoted(row.b) + ",\"mode\":\"100644\",\"immutable\":true}"@
}

/// The files as JSON.
pub open spec fn files_text(rows: Seq<RowView>) -> Seq<char> {
    list_text(Seq::new(rows.len(), |i: int| file_text(rows[i])))
}

/// The artifact as JSON: its id, its digest, the digest of its files, and the
/// files.
pub open spec fn artifact_text(run_id: Seq<char>, rows: Seq<RowView>) -> Seq<char> {
    let id = "artifact:"@ + run_id;
    let files = files_text(rows);
    let tree = sha256_label(encode_utf8(files));
    "{\"artifact_id\":"@ + json_quoted(id) + ",\"digest\":"@ + json_quoted(
        sha256_label(encode_utf8(id + "\n"@ + tree)),
    ) + ",\"tree_digest\":"@ + json_quoted(tree) + ",\"files\":"@ + files + "}"@
}

/// The artifact of a captured manifest, where it has one.
pub open spec fn receipt(manifest: ArtifactManifest, run_id: Seq<char>) -> Option<Seq<char>> {
    if manifest.files_truncated || blank(run_id) || manifest.run_id@ != run_id {
        None
    } else {
        match classified(manifest.files@, manifest.files@.len() as int) {
            None => None,
            Some(rows) => {
                let sorted = by_path(rows);
                let text = artifact_text(run_id, sorted);
                if !complete(sorted) || byte_len(text) > ACK_ARTIFACT_JSON_MAX_BYTES {
                    None
                } else {
                    Some(text)
                }
            },
        }
    }
}

fn has_kind(rows: &Vec<Row>, kind: &str) -> (r: bool)
    ensures
        r == covers(row_views(rows@), kind@),
{
    let mut i: usize = 0;
    while i < rows.len()
        invariant
            i <= rows@.len(),
            forall|j: int| 0 <= j < i ==> (#[trigger] row_views(rows@)[j]).c != kind@,
        decreases rows@.len() - i,
    {
        if same(rows[i].c.as_str(), kind) {
            assert(row_views(rows@)[i as int].c == kind@);
            return true;
        }
        i = i + 1;
    }
    false
}

fn classify(files: &Vec<ArtifactFile>) -> (r: Option<Vec<Row>>)
    ensures
        match classified(files@, files@.len() as int) {
            None => r is None,
            Some(rows) => r matches Some(v) && row_views(v@) == rows,
        },
{
    let mut rows: Vec<Row> = Vec::new();
    let mut i: usize = 0;
    assert(row_views(rows@) =~= Seq::<RowView>::empty());
    while i < files.len()
        invariant
            i <= files@.len(),
            classified(files@, i as int) == Some(row_views(rows@)),
        decreases files@.len() - i,
    {
        let file = &files[i];
        match projection_kind(file.path.as_str()) {
            None => {},
            Some(kind) => {
                if !valid_generated_path(file.path.as_str()) || !starts_with(
                    file.sha256.as_str(),
                    "sha256:",
                ) {
                    proof {
                        assert(classified(files@, i + 1) is None);
                        unclassified_stays(files@, i + 1, files@.len() as int);
                    }
                    return None;
                }
                let ghost before = rows@;
                let row = Row {
                    a: file.path.clone(),
                    n: rows.len() as u64,
                    b: file.sha256.clone(),
                    c: kind.to_owned(),
                };
                rows.push(row);
                assert(row_views(rows@) =~= row_views(before).push(row@));
            },
        }
        i = i + 1;
    }
    Some(rows)
}

proof fn unclassified_stays(files: Seq<ArtifactFile>, n: int, m: int)
    requires
        0 <= n <= m <= files.len(),
        classified(files, n) is None,
    ensures
        classified(files, m) is None,
    decreases m - n,
{
    if n < m {
        unclassified_stays(files, n, m - 1);
    }
}

fn file_json(row: &Row) -> (s: String)
    ensures
        s@ == file_text(row@),
{
    let mut s = "{\"path\":".to_owned();
    push_quoted(&mut s, row.a.as_str());
    s.append(",\"kind\":");
    push_quoted(&mut s, row.c.as_str());
    s.append(",\"digest\":");
    push_quoted(&mut s, row.b.as_str());
    s.append(",\"mode\":\"100644\",\"immutable\":true}");
    s
}

fn files_json(rows: &Vec<Row>) -> (s: String)
    ensures
        s@ == files_text(row_views(rows@)),
{
    let ghost views = row_views(rows@);
    let ghost all = Seq::new(views.len(), |i: int| file_text(views[i]));
    let mut v: Vec<String> = Vec::new();
    let mut i: usize = 0;
    while i < rows.len()
        invariant
            i <= rows@.len(),
            views == row_views(rows@),
            all == Seq::new(views.len(), |i: int| file_text(views[i])),
            texts(v@) =~= all.take(i as int),
        decreases rows@.len() - i,
    {
        let ghost before = v@;
        let text = file_json(&rows[i]);
        v.push(text);
        i = i + 1;
        assert(texts(v@) =~= texts(before).push(text@));
        assert(all.take(i as int) =~= all.take(i - 1).push(all[i - 1]));
    }
    assert(all.take(all.len() as int) =~= all);
    list_of(&v)
}

/// The compact artifact of a captured manifest. There is none where the
/// inventory is truncated, bound to another run, too long, or does not cover
/// every required kind.
pub fn from_captured_manifest(manifest: &ArtifactManifest, run_id: &str) -> (r: Option<String>)
    ensures
        match receipt(*manifest, run_id@) {
            Some(t) => r matches Some(s) && s@ == t,
            None => r is None,
        },
{
    if manifest.files_truncated || is_blank(run_id) || !same(manifest.run_id.as_str(), run_id) {
        return None;
    }
    let rows = match classify(&manifest.files) {
        None => {
            return None;
        },
        Some(rows) => rows,
    };
    let ghost all = row_views(rows@);
    let sorted = sort_rows(rows);
    proof {
        assert(in_row_order(all, row_views(sorted@)));
        row_order_is_unique(all, row_views(sorted@), by_path(all));
    }
    if !(has_kind(&sorted, "application") && has_kind(&sorted, "typed_sdk") && has_kind(
        &sorted,
        "tests",
    ) && has_kind(&sorted, "delivery_inputs")) {
        return None;
    }
    let files = files_json(&sorted);
    let tree = digest_label(files.as_str().as_bytes());
    let mut id = "artifact:".to_owned();
    id.append(run_id);
    let mut bound = id.clone();
    bound.append("\n");
    bound.append(tree.as_str());
    let digest = digest_label(bound.as_str().as_bytes());
    let mut json = "{\"artifact_id\":".to_owned();
    push_quoted(&mut json, id.as_str());
    json.append(",\"digest\":");
    push_quoted(&mut json, digest.as_str());
    json.append(",\"tree_digest\":");
    push_quoted(&mut json, tree.as_str());
    json.append(",\"files\":");
    json.append(files.as_str());
    json.append("}");
    if longer_than(json.as_str(), ACK_ARTIFACT_JSON_MAX_BYTES) {
        return None;
    }
    Some(json)
}

/// Whether rows name plain paths under the prefixes of their kinds, stand in the
/// order of their paths, and cover each required kind.
pub open spec fn well_formed(rows: Seq<RowView>) -> bool {
    &&& forall|i: int|
        0 <= i < rows.len() ==> valid_path(#[trigger] rows[i].a) && kind_of(rows[i].a) == Some(
            rows[i].c,
        )
    &&& forall|i: int, j: int|
        0 <= i < j < rows.len() ==> text_le(#[trigger] rows[i].a, #[trigger] rows[j].a)
    &&& complete(rows)
}

proof fn classified_rows_are_valid(files: Seq<ArtifactFile>, n: int)
    requires
        0 <= n <= files.len(),
        classified(files, n) is Some,
    ensures
        forall|i: int|
            0 <= i < classified(files, n)->0.len() ==> valid_path(
                #[trigger] classified(files, n)->0[i].a,
            ) && kind_of(classified(files, n)->0[i].a) == Some(classified(files, n)->0[i].c),
    decreases n,
{
    if n > 0 {
        classified_rows_are_valid(files, n - 1);
    }
}

/// An artifact lists plain relative paths under their documented prefixes, in
/// order, and covers every required kind.
pub proof fn artifact_is_well_formed(manifest: ArtifactManifest, run_id: Seq<char>) -> (rows: Seq<
    RowView,
>)
    requires
        receipt(manifest, run_id) is Some,
    ensures
        well_formed(rows),
        receipt(manifest, run_id) == Some(artifact_text(run_id, rows)),
        manifest.run_id@ == run_id,
        byte_len(receipt(manifest, run_id)->0) <= ACK_ARTIFACT_JSON_MAX_BYTES,
{
    broadcast use vstd::seq_lib::group_to_multiset_ensures;

    let all = classified(manifest.files@, manifest.files@.len() as int)->0;
    classified_rows_are_valid(manifest.files@, manifest.files@.len() as int);
    let witness = crate::canonical::row_order_exists(all);
    assert(in_row_order(all, witness));
    let rows = by_path(all);
    assert(in_row_order(all, rows));
    assert forall|i: int| 0 <= i < rows.len() implies valid_path(#[trigger] rows[i].a) && kind_of(
        rows[i].a,
    ) == Some(rows[i].c) by {
        assert(rows.contains(rows[i]));
        assert(rows.to_multiset().count(rows[i]) > 0);
        assert(all.to_multiset().count(rows[i]) > 0);
        assert(all.contains(rows[i]));
        let k = choose|k: int| 0 <= k < all.len() && all[k] == rows[i];
        assert(valid_path(all[k].a));
    }
    assert forall|i: int, j: int| 0 <= i < j < rows.len() implies text_le(
        #[trigger] rows[i].a,
        #[trigger] rows[j].a,
    ) by {
        assert(row_le(rows[i], rows[j]));
        crate::text::text_le_is_total(rows[i].a, rows[j].a);
    }
    rows
}

/// A file is of the kind that its top directory stands for, and of none where that stands
/// for none.
pub proof fn top_directory_gives_the_kind(path: Seq<char>)
    ensures
        starts(path, "app/"@) || starts(path, "application/"@) ==> kind_of(path) == Some(
            "application"@,
        ),
        starts(path, "sdk/"@) || starts(path, "typed_sdk/"@) ==> kind_of(path) == Some(
            "typed_sdk"@,
        ),
        starts(path, "tests/"@) || starts(path, "test/"@) ==> kind_of(path) == Some("tests"@),
        starts(path, "deploy/"@) || starts(path, "delivery/"@) || starts(path, "delivery_inputs/"@)
            ==> kind_of(path) == Some("delivery_inputs"@),
        kind_of(path) is None <==> !starts(path, "app/"@) && !starts(path, "application/"@)
            && !starts(path, "sdk/"@) && !starts(path, "typed_sdk/"@) && !starts(path, "tests/"@)
            && !starts(path, "test/"@) && !starts(path, "deploy/"@) && !starts(path, "delivery/"@)
            && !starts(path, "delivery_inputs/"@),
{
    begins_with(path, "app/"@);
    begins_with(path, "application/"@);
    begins_with(path, "sdk/"@);
    begins_with(path, "typed_sdk/"@);
    begins_with(path, "tests/"@);
    begins_with(path, "test/"@);
    begins_with(path, "deploy/"@);
    begins_with(path, "delivery/"@);
    begins_with(path, "delivery_inputs/"@);
    reveal_strlit("app/");
    reveal_strlit("application/");
    reveal_strlit("sdk/");
    reveal_strlit("typed_sdk/");
    reveal_strlit("tests/");
    reveal_strlit("test/");
    reveal_strlit("deploy/");
    reveal_strlit("delivery/");
    reveal_strlit("delivery_inputs/");
    if starts(path, "app/"@) || starts(path, "application/"@) {
        assert(path[0] == 'a');
    }
    if starts(path, "sdk/"@) {
        assert(path[0] == 's');
    }
    if starts(path, "typed_sdk/"@) {
        assert(path[0] == 't' && path[1] == 'y');
    }
    if starts(path, "tests/"@) || starts(path, "test/"@) {
        assert(path[0] == 't' && path[1] == 'e');
    }
    if starts(path, "deploy/"@) || starts(path, "delivery/"@) || starts(path, "delivery_inputs/"@) {
        assert(path[0] == 'd');
    }
}

proof fn begins_with(s: Seq<char>, p: Seq<char>)
    ensures
        starts(s, p) ==> s.len() >= p.len() && forall|i: int|
            0 <= i < p.len() ==> #[trigger] s[i] == p[i],
{
    if starts(s, p) {
        assert forall|i: int| 0 <= i < p.len() implies #[trigger] s[i] == p[i] by {
            assert(s.subrange(0, p.len() as int)[i] == s[i]);
        }
    }
}

/// Whether a row lists a file.
pub open spec fn lists(row: RowView, file: ArtifactFile) -> bool {
    row.a == file.path@ && row.b == file.sha256@ && kind_of(file.path@) == Some(row.c)
}

/// Whether a file is of a kind and cannot be listed.
pub open spec fn unlistable(file: ArtifactFile) -> bool {
    kind_of(file.path@) is Some && !(valid_path(file.path@) && starts(file.sha256@, "sha256:"@))
}

/// There is a list just where every file of a kind has a safe path and a digest.
pub proof fn unsafe_file_refuses_the_list(files: Seq<ArtifactFile>, n: int)
    requires
        0 <= n <= files.len(),
    ensures
        classified(files, n) is Some <==> forall|i: int|
            0 <= i < n ==> !unlistable(#[trigger] files[i]),
    decreases n,
{
    if n > 0 {
        unsafe_file_refuses_the_list(files, n - 1);
        if classified(files, n - 1) is Some && !unlistable(files[n - 1]) {
            assert(classified(files, n) is Some);
        } else if unlistable(files[n - 1]) {
            assert(classified(files, n) is None);
        }
    }
}

/// Every file of a kind is listed with its path, its digest and its kind.
pub proof fn file_of_a_kind_is_listed(files: Seq<ArtifactFile>, n: int, i: int) -> (k: int)
    requires
        0 <= i < n <= files.len(),
        classified(files, n) is Some,
        kind_of(files[i].path@) is Some,
    ensures
        0 <= k < classified(files, n)->0.len(),
        lists(classified(files, n)->0[k], files[i]),
    decreases n,
{
    if i == n - 1 {
        classified(files, n)->0.len() - 1
    } else {
        file_of_a_kind_is_listed(files, n - 1, i)
    }
}

/// Nothing is listed but a file that was captured.
pub proof fn listed_file_was_captured(files: Seq<ArtifactFile>, n: int, k: int) -> (i: int)
    requires
        0 <= n <= files.len(),
        classified(files, n) is Some,
        0 <= k < classified(files, n)->0.len(),
    ensures
        0 <= i < n,
        lists(classified(files, n)->0[k], files[i]),
    decreases n,
{
    if k < classified(files, n - 1)->0.len() {
        listed_file_was_captured(files, n - 1, k)
    } else {
        n - 1
    }
}

/// A path below a directory is safe just where no segment of it is empty, stands for a
/// directory or ends in a dot, and no backslash is in it.
pub proof fn safe_path_has_plain_segments(parts: Seq<Seq<char>>)
    requires
        parts.len() > 0,
        forall|i: int| 0 <= i < parts.len() ==> !(#[trigger] parts[i]).contains('/'),
        valid_path(join(parts, seq!['/'])),
    ensures
        forall|i: int|
            0 <= i < parts.len() ==> (#[trigger] parts[i]).len() > 0 && parts[i] != "."@ && parts[i]
                != ".."@ && parts[i].last() != '.',
{
    joined_pieces_split_back(parts, '/');
    reveal_strlit(".");
    assert forall|i: int| 0 <= i < parts.len() implies (#[trigger] parts[i]).len() > 0 && parts[i]
        != "."@ && parts[i] != ".."@ && parts[i].last() != '.' by {
        let s = parts[i];
        assert(split(join(parts, seq!['/']), '/')[i] == s);
        assert(!bad_segment(s));
        if s.len() > 0 && s.last() == '.' {
            assert(s.subrange(s.len() - 1, s.len() as int) =~= "."@);
        }
    }
}

/// A receipt is given just where the capture is whole and of this run, its files can be
/// listed, every kind is there, and the text is within its limit.
pub proof fn receipt_is_given_for_a_whole_capture(manifest: ArtifactManifest, run_id: Seq<char>)
    ensures
        ({
            let rows = classified(manifest.files@, manifest.files@.len() as int);
            receipt(manifest, run_id) is Some <==> !manifest.files_truncated && !blank(run_id)
                && manifest.run_id@ == run_id && rows is Some && complete(by_path(rows->0))
                && byte_len(artifact_text(run_id, by_path(rows->0))) <= ACK_ARTIFACT_JSON_MAX_BYTES
        }),
{
}

/// A listed file is written with its path, its kind and its digest.
pub proof fn listed_file_tells_itself(row: RowView)
    ensures
        contains(file_text(row), "{\"path\":"@ + json_quoted(row.a)),
        contains(file_text(row), ",\"kind\":"@ + json_quoted(row.c)),
        contains(file_text(row), ",\"digest\":"@ + json_quoted(row.b)),
        contains(file_text(row), ",\"mode\":\"100644\",\"immutable\":true}"@),
{
    let s0 = "{\"path\":"@ + json_quoted(row.a);
    text_holds_what_is_added(Seq::empty(), s0);
    assert(Seq::<char>::empty() + s0 =~= s0);
    let s1 = field_added(s0, ",\"kind\":"@, json_quoted(row.c));
    let s2 = field_added(s1, ",\"digest\":"@, json_quoted(row.b));
    text_keeps_what_it_holds(s2, ",\"mode\":\"100644\",\"immutable\":true}"@);
    text_holds_what_is_added(s2, ",\"mode\":\"100644\",\"immutable\":true}"@);
}

/// An artifact is written with the id of its run, the digest of its listing and the listing
/// itself; its own digest is of the id and that of the listing.
pub proof fn artifact_tells_its_tree(run_id: Seq<char>, rows: Seq<RowView>)
    ensures
        ({
            let tree = sha256_label(encode_utf8(files_text(rows)));
            let text = artifact_text(run_id, rows);
            &&& contains(text, "{\"artifact_id\":"@ + json_quoted("artifact:"@ + run_id))
            &&& contains(text, ",\"tree_digest\":"@ + json_quoted(tree))
            &&& contains(
                text,
                ",\"digest\":"@ + json_quoted(
                    sha256_label(encode_utf8("artifact:"@ + run_id + "\n"@ + tree)),
                ),
            )
            &&& contains(text, ",\"files\":"@ + files_text(rows))
        }),
{
    let id = "artifact:"@ + run_id;
    let files = files_text(rows);
    let tree = sha256_label(encode_utf8(files));
    let s0 = "{\"artifact_id\":"@ + json_quoted(id);
    text_holds_what_is_added(Seq::empty(), s0);
    assert(Seq::<char>::empty() + s0 =~= s0);
    let s1 = field_added(
        s0,
        ",\"digest\":"@,
        json_quoted(sha256_label(encode_utf8(id + "\n"@ + tree))),
    );
    let s2 = field_added(s1, ",\"tree_digest\":"@, json_quoted(tree));
    let s3 = field_added(s2, ",\"files\":"@, files);
    text_keeps_what_it_holds(s3, "}"@);
}

} // verus!
