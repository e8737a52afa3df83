//! Where the application keeps its data, as paths under the user's home
//! directory (Unix separators).
use vstd::prelude::*;
use vstd::multiset::Multiset;
use crate::text::{chars_of, push_char, push_str};

verus! {

/// `part` joined onto `base` as `PathBuf::join` does on Unix: an absolute
/// `part` replaces `base`; otherwise a '/' goes between them unless
/// `base` is empty or already ends with one.
pub open spec fn path_join(base: Seq<char>, part: Seq<char>) -> Seq<char> {
    if part.len() > 0 && part[0] == '/' {
        part
    } else if base.len() == 0 || base.last() == '/' {
        base + part
    } else {
        base + seq!['/'] + part
    }
}

/// Joins a path component onto a base path.
pub fn join_path(base: &str, part: &str) -> (r: String)
    ensures
        r@ == path_join(base@, part@),
{
    let p = chars_of(part);
    if p.len() > 0 && p[0] == '/' {
        return part.to_string();
    }
    let b = chars_of(base);
    let mut out = base.to_string();
    if !(b.len() == 0 || b[b.len() - 1] == '/') {
        push_char(&mut out, '/');
    }
    push_str(&mut out, part);
    out
}

/// The data directory: `<home>/.openagents`.
pub fn data_dir(home: &str) -> (r: String)
    ensures
        r@ == path_join(home@, ".openagents"@),
{
    join_path(home, ".openagents")
}

/// The database file: `<home>/.openagents/database.db`.
pub fn database_file(home: &str) -> (r: String)
    ensures
        r@ == path_join(path_join(home@, ".openagents"@), "database.db"@),
{
    let d = data_dir(home);
    join_path(d.as_str(), "database.db")
}

/// The log directory: `<home>/.openagents/log`.
pub fn log_dir(home: &str) -> (r: String)
    ensures
        r@ == path_join(path_join(home@, ".openagents"@), "log"@),
{
    let d = data_dir(home);
    join_path(d.as_str(), "log")
}

/// The directories searched for skills, in order of precedence:
/// `<home>/.openagents/skills`, then `<home>/.agents/skills`.
pub fn skills_dir_list(home: &str) -> (r: Vec<String>)
    ensures
        r@.len() == 2,
        r@[0]@ == path_join(path_join(home@, ".openagents"@), "skills"@),
        r@[1]@ == path_join(path_join(home@, ".agents"@), "skills"@),
{
    let a = join_path(home, ".openagents");
    let b = join_path(home, ".agents");
    let mut v: Vec<String> = Vec::new();
    v.push(join_path(a.as_str(), "skills"));
    v.push(join_path(b.as_str(), "skills"));
    v
}

/// A file path of a tool command, taken relative to the working directory
/// unless it is absolute (the caller may canonicalise it on disk).
pub fn resolve_path(work_dir: &str, file_path: &str) -> (r: String)
    ensures
        r@ == path_join(work_dir@, file_path@),
{
    join_path(work_dir, file_path)
}

/// Character order of names, the order `str` comparison gives: UTF-8
/// bytes compare as code points do, so this is the lexicographic order on
/// characters, a proper prefix coming first.
pub open spec fn name_le(a: Seq<char>, b: Seq<char>) -> bool
    decreases a.len(),
{
    if a.len() == 0 {
        true
    } else if b.len() == 0 {
        false
    } else if a[0] != b[0] {
        a[0] < b[0]
    } else {
        name_le(a.drop_first(), b.drop_first())
    }
}

/// Any two names are ordered one way or the other.
pub proof fn lemma_name_le_total(a: Seq<char>, b: Seq<char>)
    ensures
        name_le(a, b) || name_le(b, a),
    decreases a.len(),
{
    if a.len() > 0 && b.len() > 0 && a[0] == b[0] {
        lemma_name_le_total(a.drop_first(), b.drop_first());
    }
}

/// The order on names is transitive.
pub proof fn lemma_name_le_transitive(a: Seq<char>, b: Seq<char>, c: Seq<char>)
    requires
        name_le(a, b),
        name_le(b, c),
    ensures
        name_le(a, c),
    decreases a.len(),
{
    if a.len() > 0 && b.len() > 0 && c.len() > 0 && a[0] == b[0] && b[0] == c[0] {
        lemma_name_le_transitive(a.drop_first(), b.drop_first(), c.drop_first());
    }
}

/// `name_le(a, b)` computed on character vectors.
fn name_le_of(a: &Vec<char>, b: &Vec<char>) -> (r: bool)
    ensures
        r == name_le(a@, b@),
{
    let mut i: usize = 0;
    assert(a@.skip(0) =~= a@);
    assert(b@.skip(0) =~= b@);
    while i < a.len() && i < b.len() && a[i] == b[i]
        invariant
            i <= a.len(),
            i <= b.len(),
            name_le(a@, b@) == name_le(a@.skip(i as int), b@.skip(i as int)),
        decreases a.len() - i,
    {
        assert(a@.skip(i as int).drop_first() =~= a@.skip(i + 1));
        assert(b@.skip(i as int).drop_first() =~= b@.skip(i + 1));
        i += 1;
    }
    if i == a.len() {
        true
    } else if i == b.len() {
        false
    } else {
        a[i] < b[i]
    }
}

/// A directory found in a listing: its name and its resolved path.
pub struct DirEntry {
    pub name: String,
    pub path: String,
}

impl View for DirEntry {
    type V = (Seq<char>, Seq<char>);

    open spec fn view(&self) -> (Seq<char>, Seq<char>) {
        (self.name@, self.path@)
    }
}

/// The entries of a listing by their views.
pub open spec fn entries_view(v: Seq<DirEntry>) -> Seq<(Seq<char>, Seq<char>)> {
    v.map_values(|e: DirEntry| e@)
}

/// The directories of a listing ordered by name: the same entries, each
/// name no greater than the names after it.
pub fn sort_directories(entries: Vec<DirEntry>) -> (r: Vec<DirEntry>)
    ensures
        entries_view(r@).to_multiset() == entries_view(entries@).to_multiset(),
        forall|i: int, j: int| 0 <= i < j < r@.len() ==> name_le(r@[i].name@, r@[j].name@),
{
    broadcast use
        vstd::seq_lib::to_multiset_len,
        vstd::multiset::lemma_multiset_empty_len,
    ;
    broadcast use vstd::multiset::group_multiset_axioms;

    let mut rest = entries;
    let mut out: Vec<DirEntry> = Vec::new();
    assert(entries_view(out@).len() == 0);
    assert(entries_view(out@).to_multiset().len() == 0);
    assert(entries_view(out@).to_multiset() =~= Multiset::empty());
    assert(entries_view(out@).to_multiset().add(entries_view(rest@).to_multiset())
        =~= entries_view(entries@).to_multiset());
    while rest.len() > 0
        invariant
            entries_view(out@).to_multiset().add(entries_view(rest@).to_multiset())
                == entries_view(entries@).to_multiset(),
            forall|i: int, j: int| 0 <= i < j < out@.len() ==> name_le(out@[i].name@, out@[j].name@),
        decreases rest.len(),
    {
        let ghost before = rest@;
        let x = rest.pop().unwrap();
        assert(entries_view(before) =~= entries_view(rest@).push(x@));
        let xc = chars_of(x.name.as_str());
        let mut j: usize = 0;
        while j < out.len() && !name_le_of(&xc, &chars_of(out[j].name.as_str()))
            invariant
                j <= out@.len(),
                xc@ == x.name@,
                forall|k: int| 0 <= k < j ==> !name_le(x.name@, #[trigger] out@[k].name@),
            decreases out.len() - j,
        {
            j += 1;
        }
        let ghost old_out = out@;
        proof {
            assert forall|k: int| 0 <= k < j implies name_le(#[trigger] old_out[k].name@, x.name@) by {
                lemma_name_le_total(old_out[k].name@, x.name@);
            }
        }
        out.insert(j, x);
        proof {
            assert(entries_view(out@) =~= entries_view(old_out).insert(j as int, x@));
            vstd::seq_lib::to_multiset_insert(entries_view(old_out), j as int, x@);
            vstd::seq_lib::to_multiset_build(entries_view(rest@), x@);
            assert(entries_view(out@).to_multiset().add(entries_view(rest@).to_multiset())
                =~= entries_view(old_out).to_multiset().add(entries_view(before).to_multiset()));
            assert forall|a: int, b: int| 0 <= a < b < out@.len() implies name_le(
                out@[a].name@,
                out@[b].name@,
            ) by {
                if b < j {
                    assert(out@[a] == old_out[a] && out@[b] == old_out[b]);
                } else if a < j && b == j {
                    assert(out@[a] == old_out[a]);
                } else if a < j && b > j {
                    assert(out@[a] == old_out[a] && out@[b] == old_out[b - 1]);
                } else if a == j {
                    assert(out@[b] == old_out[b - 1]);
                    if b - 1 > j {
                        lemma_name_le_transitive(
                            x.name@,
                            old_out[j as int].name@,
                            old_out[b - 1].name@,
                        );
                    }
                } else {
                    assert(out@[a] == old_out[a - 1] && out@[b] == old_out[b - 1]);
                }
            }
        }
    }
    assert(entries_view(rest@).len() == 0);
    assert(entries_view(rest@).to_multiset().len() == 0);
    assert(entries_view(rest@).to_multiset() =~= Multiset::empty());
    assert(entries_view(out@).to_multiset().add(entries_view(rest@).to_multiset())
        =~= entries_view(out@).to_multiset());
    out
}

} // verus!
