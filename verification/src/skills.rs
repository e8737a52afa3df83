//! Skills: directories holding a `SKILL.md` whose front matter gives the
//! skill's name and description, followed by its instructions.
use vstd::prelude::*;
use crate::json_value::{JsonScalar, JsonScalarView, json_object_array, json_object_array_of, objects_view};
use crate::text::{chars_of, string_from_chars, string_from_range, trim, trimmed};

verus! {

/// A loaded skill.
pub struct SkillInfo {
    pub name: String,
    pub description: String,
    /// Path of its `SKILL.md`.
    pub path: String,
    /// The instructions after the front matter, trimmed.
    pub content: String,
}

impl SkillInfo {
    pub fn duplicate(&self) -> (r: SkillInfo)
        ensures
            r.name@ == self.name@,
            r.description@ == self.description@,
            r.path@ == self.path@,
            r.content@ == self.content@,
    {
        SkillInfo {
            name: self.name.clone(),
            description: self.description.clone(),
            path: self.path.clone(),
            content: self.content.clone(),
        }
    }
}

/// Splitting at '\n' up to `n` characters: the finished pieces and the current one.
pub open spec fn split_acc(s: Seq<char>, n: int) -> (Seq<Seq<char>>, Seq<char>)
    decreases n,
{
    if n <= 0 {
        (Seq::empty(), Seq::empty())
    } else {
        let (done, cur) = split_acc(s, n - 1);
        if s[n - 1] == '\n' {
            (done.push(cur), Seq::empty())
        } else {
            (done, cur.push(s[n - 1]))
        }
    }
}

/// The lines of a text as `str::lines` gives them, each trimmed: pieces
/// between '\n', without the empty piece after a final '\n'.
pub open spec fn trimmed_lines(s: Seq<char>) -> Seq<Seq<char>> {
    let (done, cur) = split_acc(s, s.len() as int);
    let pieces = if cur.len() == 0 {
        done
    } else {
        done.push(cur)
    };
    pieces.map_values(|l: Seq<char>| trim(l))
}

/// Whether `p` starts `s`.
pub open spec fn starts_with(s: Seq<char>, p: Seq<char>) -> bool {
    p.len() <= s.len() && s.take(p.len() as int) == p
}

/// Name and description from the header lines (the last of each wins).
pub open spec fn header_fields(lines: Seq<Seq<char>>) -> (Seq<char>, Seq<char>)
    decreases lines.len(),
{
    if lines.len() == 0 {
        (Seq::empty(), Seq::empty())
    } else {
        let (name, desc) = header_fields(lines.drop_last());
        let l = lines.last();
        if starts_with(l, "name:"@) {
            (trim(l.skip(5)), desc)
        } else if starts_with(l, "description:"@) {
            (name, trim(l.skip(12)))
        } else {
            (name, desc)
        }
    }
}

/// Index of the first line after the first that is "---".
pub open spec fn closing_line(lines: Seq<Seq<char>>) -> Option<int> {
    if exists|i: int| 1 <= i < lines.len() && lines[i] == "---"@ {
        Some(choose|i: int| 1 <= i < lines.len() && lines[i] == "---"@ && forall|k: int| 1 <= k < i ==> lines[k] != "---"@)
    } else {
        None
    }
}

/// Whether "---" occurs in `s` at `i`.
pub open spec fn dashes_at(s: Seq<char>, i: int) -> bool {
    0 <= i && i + 3 <= s.len() && s[i] == '-' && s[i + 1] == '-' && s[i + 2] == '-'
}

/// First occurrence of "---" at or after `from`.
#[verifier::opaque]
pub open spec fn dashes_from(s: Seq<char>, from: int) -> Option<int> {
    if exists|i: int| from <= i && dashes_at(s, i) {
        Some(choose|i: int| from <= i && dashes_at(s, i) && forall|k: int| from <= k < i ==> !dashes_at(s, k))
    } else {
        None
    }
}

/// The text after the second (non-overlapping) "---", trimmed; empty when there is none.
pub open spec fn skill_body(s: Seq<char>) -> Seq<char> {
    match dashes_from(s, 0) {
        Some(a) => match dashes_from(s, a + 3) {
            Some(b) => trim(s.skip(b + 3)),
            None => Seq::empty(),
        },
        None => Seq::empty(),
    }
}

/// A `SKILL.md` read for the directory `dir_name`: its first line must be
/// "---" and a later line "---"; between them "name:" and "description:"
/// lines give the fields; the skill counts only when its name is the
/// directory's name.  Gives the name, the description and the body.
pub open spec fn spec_parse_skill(text: Seq<char>, dir_name: Seq<char>) -> Option<(Seq<char>, Seq<char>, Seq<char>)> {
    let lines = trimmed_lines(text);
    if lines.len() == 0 || lines[0] != "---"@ {
        None
    } else {
        match closing_line(lines) {
            None => None,
            Some(j) => {
                let (name, desc) = header_fields(lines.subrange(1, j));
                if name == dir_name {
                    Some((name, desc, skill_body(text)))
                } else {
                    None
                }
            },
        }
    }
}

fn trimmed_lines_exec(text: &str) -> (r: Vec<Vec<char>>)
    ensures
        r@.map_values(|l: Vec<char>| l@) == trimmed_lines(text@),
{
    let cs = chars_of(text);
    let mut done: Vec<String> = Vec::new();
    let mut cur: Vec<char> = Vec::new();
    let mut i: usize = 0;
    while i < cs.len()
        invariant
            i <= cs.len(),
            cs@ == text@,
            split_acc(cs@, i as int) == (done@.map_values(|l: String| l@), cur@),
        decreases cs.len() - i,
    {
        if cs[i] == '\n' {
            let piece = string_from_chars(&cur);
            let ghost before = done@;
            done.push(piece);
            assert(done@.map_values(|l: String| l@) =~= before.map_values(|l: String| l@).push(cur@));
            cur = Vec::new();
            assert(cur@ =~= Seq::<char>::empty());
        } else {
            cur.push(cs[i]);
        }
        i += 1;
    }
    if cur.len() > 0 {
        let piece = string_from_chars(&cur);
        let ghost before = done@;
        done.push(piece);
        assert(done@.map_values(|l: String| l@) =~= before.map_values(|l: String| l@).push(cur@));
    }
    let ghost pieces = done@.map_values(|l: String| l@);
    let mut out: Vec<Vec<char>> = Vec::new();
    let mut k: usize = 0;
    while k < done.len()
        invariant
            k <= done.len(),
            pieces == done@.map_values(|l: String| l@),
            out@.map_values(|l: Vec<char>| l@) == pieces.take(k as int).map_values(|l: Seq<char>| trim(l)),
        decreases done.len() - k,
    {
        let t = trimmed(done[k].as_str());
        let tc = chars_of(t.as_str());
        let ghost before = out@;
        out.push(tc);
        assert(pieces[k as int] == done@[k as int]@);
        assert(pieces.take(k + 1) =~= pieces.take(k as int).push(pieces[k as int]));
        assert(out@.map_values(|l: Vec<char>| l@) =~= before.map_values(|l: Vec<char>| l@).push(trim(pieces[k as int])));
        assert(pieces.take(k + 1).map_values(|l: Seq<char>| trim(l)) =~= pieces.take(k as int).map_values(|l: Seq<char>| trim(l)).push(trim(pieces[k as int])));
        k += 1;
    }
    assert(pieces.take(done.len() as int) =~= pieces);
    out
}

fn is_dashes(l: &Vec<char>) -> (r: bool)
    ensures
        r == (l@ == "---"@),
{
    proof {
        reveal_strlit("---");
    }
    if l.len() != 3 {
        return false;
    }
    let r = l[0] == '-' && l[1] == '-' && l[2] == '-';
    proof {
        if r {
            assert(l@ =~= "---"@);
        }
    }
    r
}

fn starts_with_exec(l: &Vec<char>, p: &str) -> (r: bool)
    ensures
        r == starts_with(l@, p@),
{
    let pc = chars_of(p);
    if pc.len() > l.len() {
        return false;
    }
    let mut k: usize = 0;
    while k < pc.len()
        invariant
            pc.len() <= l.len(),
            k <= pc.len(),
            pc@ == p@,
            forall|j: int| 0 <= j < k ==> l@[j] == pc@[j],
        decreases pc.len() - k,
    {
        if l[k] != pc[k] {
            assert(l@.take(pc.len() as int)[k as int] != pc@[k as int]);
            return false;
        }
        k += 1;
    }
    assert(l@.take(pc.len() as int) =~= pc@);
    true
}

fn find_dashes(cs: &Vec<char>, from: usize) -> (r: Option<usize>)
    ensures
        match r {
            Some(i) => dashes_from(cs@, from as int) == Some(i as int) && i + 3 <= cs.len(),
            None => dashes_from(cs@, from as int) is None,
        },
{
    reveal(dashes_from);
    let mut i: usize = from;
    while i < cs.len() && cs.len() - i >= 3
        invariant
            from <= i,
            forall|k: int| from <= k < i ==> !dashes_at(cs@, k),
        decreases cs.len() - i,
    {
        if cs[i] == '-' && cs[i + 1] == '-' && cs[i + 2] == '-' {
            proof {
                reveal(dashes_from);
                assert(dashes_at(cs@, i as int));
                assert(from <= i && dashes_at(cs@, i as int) && forall|k: int| from <= k < i ==> !dashes_at(cs@, k));
                let c = choose|j: int| from <= j && dashes_at(cs@, j) && forall|k: int| from <= k < j ==> !dashes_at(cs@, k);
                if c < i {
                    assert(!dashes_at(cs@, c));
                } else if c > i {
                    assert(!dashes_at(cs@, i as int));
                }
                assert(dashes_from(cs@, from as int) == Some(i as int));
            }
            return Some(i);
        }
        i += 1;
    }
    proof {
        reveal(dashes_from);
        assert forall|k: int| from <= k implies !dashes_at(cs@, k) by {
            if k >= i {
                assert(k >= cs@.len() || k + 3 > cs@.len());
            }
        }
    }
    None
}

fn chars_eq(a: &Vec<char>, b: &Vec<char>) -> (r: bool)
    ensures
        r == (a@ == b@),
{
    if a.len() != b.len() {
        return false;
    }
    let mut q: usize = 0;
    while q < a.len()
        invariant
            a.len() == b.len(),
            q <= a.len(),
            forall|x: int| 0 <= x < q ==> a@[x] == b@[x],
        decreases a.len() - q,
    {
        if a[q] != b[q] {
            return false;
        }
        q += 1;
    }
    assert(a@ =~= b@);
    true
}

fn closing_line_exec(lines: &Vec<Vec<char>>) -> (r: Option<usize>)
    ensures
        match r {
            Some(j) => closing_line(lines@.map_values(|l: Vec<char>| l@)) == Some(j as int) && 1 <= j < lines.len(),
            None => closing_line(lines@.map_values(|l: Vec<char>| l@)) is None,
        },
{
    let ghost lv = lines@.map_values(|l: Vec<char>| l@);
    let mut j: usize = 1;
    while j < lines.len()
        invariant
            1 <= j,
            lv == lines@.map_values(|l: Vec<char>| l@),
            forall|k: int| 1 <= k < j && k < lv.len() ==> lv[k] != "---"@,
        decreases lines.len() - j,
    {
        assert(lv[j as int] == lines@[j as int]@);
        if is_dashes(&lines[j]) {
            proof {
                let c = choose|i: int| 1 <= i < lv.len() && lv[i] == "---"@ && forall|k: int| 1 <= k < i ==> lv[k] != "---"@;
                if c < j {
                    assert(lv[c] != "---"@);
                } else if c > j {
                    assert(lv[j as int] != "---"@);
                }
            }
            return Some(j);
        }
        j += 1;
    }
    None
}

fn header_of(lines: &Vec<Vec<char>>, j: usize) -> (r: (Vec<char>, Vec<char>))
    requires
        1 <= j <= lines.len(),
    ensures
        header_fields(lines@.map_values(|l: Vec<char>| l@).subrange(1, j as int)) == (r.0@, r.1@),
{
    proof {
        reveal_strlit("name:");
        reveal_strlit("description:");
    }
    let ghost lv = lines@.map_values(|l: Vec<char>| l@);
    let mut name: Vec<char> = Vec::new();
    let mut desc: Vec<char> = Vec::new();
    let mut k: usize = 1;
    while k < j
        invariant
            1 <= k <= j <= lines.len(),
            lv == lines@.map_values(|l: Vec<char>| l@),
            "name:"@.len() == 5,
            "description:"@.len() == 12,
            header_fields(lv.subrange(1, k as int)) == (name@, desc@),
        decreases j - k,
    {
        assert(lv.subrange(1, k + 1).drop_last() =~= lv.subrange(1, k as int));
        assert(lv.subrange(1, k + 1).last() == lines@[k as int]@);
        let l = &lines[k];
        if starts_with_exec(l, "name:") {
            let s = string_from_range(l, 5, l.len());
            assert(l@.subrange(5, l@.len() as int) =~= l@.skip(5));
            let t = trimmed(s.as_str());
            name = chars_of(t.as_str());
        } else if starts_with_exec(l, "description:") {
            let s = string_from_range(l, 12, l.len());
            assert(l@.subrange(12, l@.len() as int) =~= l@.skip(12));
            let t = trimmed(s.as_str());
            desc = chars_of(t.as_str());
        }
        k += 1;
    }
    (name, desc)
}

fn skill_body_exec(text: &str) -> (r: String)
    ensures
        r@ == skill_body(text@),
{
    let cs = chars_of(text);
    match find_dashes(&cs, 0) {
        Some(a) => match find_dashes(&cs, a + 3) {
            Some(b) => {
                let rest = string_from_range(&cs, b + 3, cs.len());
                assert(cs@.subrange(b + 3, cs@.len() as int) =~= cs@.skip(b + 3));
                trimmed(rest.as_str())
            },
            None => String::new(),
        },
        None => String::new(),
    }
}

/// Reads a `SKILL.md` for the directory `dir_name` (see `spec_parse_skill`).
pub fn parse_skill(text: &str, dir_name: &str) -> (r: Option<(String, String, String)>)
    ensures
        match r {
            Some((n, d, c)) => spec_parse_skill(text@, dir_name@) == Some((n@, d@, c@)),
            None => spec_parse_skill(text@, dir_name@) is None,
        },
{
    let lines = trimmed_lines_exec(text);
    let ghost lv = lines@.map_values(|l: Vec<char>| l@);
    if lines.len() == 0 {
        return None;
    }
    assert(lv[0] == lines@[0]@);
    if !is_dashes(&lines[0]) {
        return None;
    }
    let j = match closing_line_exec(&lines) {
        Some(j) => j,
        None => return None,
    };
    let (name, desc) = header_of(&lines, j);
    let dn = chars_of(dir_name);
    if !chars_eq(&name, &dn) {
        return None;
    }
    let body = skill_body_exec(text);
    Some((string_from_chars(&name), string_from_chars(&desc), body))
}

/// A skill directory found on disk: its name, the text of its `SKILL.md`
/// (`None` when there is no readable file) and the file's path.
pub struct SkillCandidate {
    pub dir_name: String,
    pub text: Option<String>,
    pub path: String,
}

pub struct SkillView {
    pub name: Seq<char>,
    pub description: Seq<char>,
    pub path: Seq<char>,
    pub content: Seq<char>,
}

pub open spec fn skill_view(s: SkillInfo) -> SkillView {
    SkillView { name: s.name@, description: s.description@, path: s.path@, content: s.content@ }
}

pub open spec fn skills_view(v: Seq<SkillInfo>) -> Seq<SkillView> {
    v.map_values(|s: SkillInfo| skill_view(s))
}

/// Skills loaded from the candidates in order, with the names loaded so
/// far: a directory whose name is already loaded is skipped, so the first
/// directory of a name wins.
pub open spec fn collect_from(cands: Seq<SkillCandidate>) -> (Seq<SkillView>, Seq<Seq<char>>)
    decreases cands.len(),
{
    if cands.len() == 0 {
        (Seq::empty(), Seq::empty())
    } else {
        let (skills, loaded) = collect_from(cands.drop_last());
        let c = cands.last();
        if loaded.contains(c.dir_name@) {
            (skills, loaded)
        } else {
            match c.text {
                None => (skills, loaded),
                Some(t) => match spec_parse_skill(t@, c.dir_name@) {
                    None => (skills, loaded),
                    Some((n, d, body)) => (
                        skills.push(SkillView { name: n, description: d, path: c.path@, content: body }),
                        loaded.push(c.dir_name@),
                    ),
                },
            }
        }
    }
}

proof fn lemma_collect_names(cands: Seq<SkillCandidate>)
    ensures
        collect_from(cands).0.len() == collect_from(cands).1.len(),
        forall|k: int| 0 <= k < collect_from(cands).0.len() ==> #[trigger] collect_from(cands).0[k].name == collect_from(cands).1[k],
        forall|i: int, j: int|
            0 <= i < j < collect_from(cands).1.len() ==> collect_from(cands).1[i] != collect_from(cands).1[j],
    decreases cands.len(),
{
    if cands.len() > 0 {
        lemma_collect_names(cands.drop_last());
        let (skills, loaded) = collect_from(cands.drop_last());
        let c = cands.last();
        if !loaded.contains(c.dir_name@) {
            match c.text {
                Some(t) => match spec_parse_skill(t@, c.dir_name@) {
                    Some((n, d, body)) => {
                        assert forall|i: int, j: int| 0 <= i < j < loaded.push(c.dir_name@).len() implies loaded.push(
                            c.dir_name@,
                        )[i] != loaded.push(c.dir_name@)[j] by {
                            if j == loaded.len() {
                                assert(loaded[i] != c.dir_name@);
                            }
                        }
                    },
                    None => {},
                },
                None => {},
            }
        }
    }
}

/// No two loaded skills share a name: a name is taken by the first
/// directory that provides a valid skill for it.
pub proof fn lemma_skill_names_distinct(cands: Seq<SkillCandidate>)
    ensures
        forall|i: int, j: int|
            0 <= i < j < collect_from(cands).0.len() ==> collect_from(cands).0[i].name != collect_from(cands).0[j].name,
{
    lemma_collect_names(cands);
    let sk = collect_from(cands).0;
    let ld = collect_from(cands).1;
    assert forall|i: int, j: int| 0 <= i < j < sk.len() implies sk[i].name != sk[j].name by {
        assert(sk[i].name == ld[i]);
        assert(sk[j].name == ld[j]);
    }
}

fn contains_name(names: &Vec<String>, n: &String) -> (r: bool)
    ensures
        r == names@.map_values(|s: String| s@).contains(n@),
{
    let ghost nv = names@.map_values(|s: String| s@);
    let mut i: usize = 0;
    while i < names.len()
        invariant
            i <= names.len(),
            nv == names@.map_values(|s: String| s@),
            forall|k: int| 0 <= k < i ==> nv[k] != n@,
        decreases names.len() - i,
    {
        if names[i] == *n {
            assert(nv[i as int] == n@);
            return true;
        }
        i += 1;
    }
    proof {
        if nv.contains(n@) {
            let k = choose|k: int| 0 <= k < nv.len() && nv[k] == n@;
            assert(nv[k] != n@);
        }
    }
    false
}

/// Loads the skills of the candidates (see `collect_from`).
pub fn collect_skills(cands: &Vec<SkillCandidate>) -> (r: Vec<SkillInfo>)
    ensures
        skills_view(r@) == collect_from(cands@).0,
{
    let mut skills: Vec<SkillInfo> = Vec::new();
    let mut loaded: Vec<String> = Vec::new();
    let mut i: usize = 0;
    while i < cands.len()
        invariant
            i <= cands.len(),
            collect_from(cands@.take(i as int)) == (skills_view(skills@), loaded@.map_values(|s: String| s@)),
        decreases cands.len() - i,
    {
        assert(cands@.take(i + 1).drop_last() =~= cands@.take(i as int));
        assert(cands@.take(i + 1).last() == cands@[i as int]);
        let c = &cands[i];
        if !contains_name(&loaded, &c.dir_name) {
            match &c.text {
                Some(t) => match parse_skill(t.as_str(), c.dir_name.as_str()) {
                    Some((n, d, body)) => {
                        let ghost sb = skills@;
                        let ghost lb = loaded@;
                        let s = SkillInfo { name: n, description: d, path: c.path.clone(), content: body };
                        let ghost sv = skill_view(s);
                        skills.push(s);
                        loaded.push(c.dir_name.clone());
                        assert(skills_view(skills@) =~= skills_view(sb).push(sv));
                        assert(loaded@.map_values(|s: String| s@) =~= lb.map_values(|s: String| s@).push(c.dir_name@));
                    },
                    None => {},
                },
                None => {},
            }
        }
        i += 1;
    }
    assert(cands@.take(cands.len() as int) =~= cands@);
    skills
}

/// A copy of the loaded skills.
pub fn list_skills(store: &Vec<SkillInfo>) -> (r: Vec<SkillInfo>)
    ensures
        skills_view(r@) == skills_view(store@),
{
    let mut out: Vec<SkillInfo> = Vec::new();
    let mut i: usize = 0;
    while i < store.len()
        invariant
            i <= store.len(),
            skills_view(out@) == skills_view(store@).take(i as int),
        decreases store.len() - i,
    {
        let s = store[i].duplicate();
        let ghost before = out@;
        out.push(s);
        assert(skills_view(out@) =~= skills_view(before).push(skill_view(store@[i as int])));
        assert(skills_view(store@).take(i + 1) =~= skills_view(store@).take(i as int).push(skill_view(store@[i as int])));
        i += 1;
    }
    assert(skills_view(store@).take(store.len() as int) =~= skills_view(store@));
    out
}

/// The listing of a skill: its name, description and path.
pub open spec fn skill_listing(s: SkillView) -> Seq<(Seq<char>, JsonScalarView)> {
    seq![
        ("name"@, JsonScalarView::Str(s.name)),
        ("description"@, JsonScalarView::Str(s.description)),
        ("path"@, JsonScalarView::Str(s.path)),
    ]
}

/// The result of a `skill` command: `skill list` gives the skills as a
/// JSON array; anything else is an unknown command (an error).
pub open spec fn spec_skill_command(args: Seq<Seq<char>>, skills: Seq<SkillView>) -> (Seq<char>, bool) {
    if args.len() == 2 && args[0] == "skill"@ && args[1] == "list"@ {
        (json_object_array(skills.map_values(|s: SkillView| skill_listing(s))), false)
    } else {
        ("Unknown command"@, true)
    }
}

/// Runs a `skill` command against the loaded skills.
pub fn skill_command(args: &Vec<String>, skills: &Vec<SkillInfo>) -> (r: (String, bool))
    ensures
        (r.0@, r.1) == spec_skill_command(args@.map_values(|s: String| s@), skills_view(skills@)),
{
    let ghost av = args@.map_values(|s: String| s@);
    let is_list = args.len() == 2 && args[0] == "skill".to_string() && args[1] == "list".to_string();
    proof {
        if args.len() == 2 {
            assert(av[0] == args@[0]@);
            assert(av[1] == args@[1]@);
        }
    }
    if !is_list {
        return ("Unknown command".to_string(), true);
    }
    let ghost sv = skills_view(skills@);
    let mut items: Vec<Vec<(String, JsonScalar)>> = Vec::new();
    let mut i: usize = 0;
    while i < skills.len()
        invariant
            i <= skills.len(),
            sv == skills_view(skills@),
            objects_view(items@) == sv.take(i as int).map_values(|s: SkillView| skill_listing(s)),
        decreases skills.len() - i,
    {
        let mut fields: Vec<(String, JsonScalar)> = Vec::new();
        fields.push(("name".to_string(), JsonScalar::Str(skills[i].name.clone())));
        fields.push(("description".to_string(), JsonScalar::Str(skills[i].description.clone())));
        fields.push(("path".to_string(), JsonScalar::Str(skills[i].path.clone())));
        let ghost before = items@;
        assert(crate::json_value::fields_view(fields@) =~= skill_listing(sv[i as int]));
        items.push(fields);
        assert(objects_view(items@) =~= objects_view(before).push(skill_listing(sv[i as int])));
        assert(sv.take(i + 1) =~= sv.take(i as int).push(sv[i as int]));
        assert(sv.take(i + 1).map_values(|s: SkillView| skill_listing(s)) =~= sv.take(i as int).map_values(
            |s: SkillView| skill_listing(s),
        ).push(skill_listing(sv[i as int])));
        i += 1;
    }
    assert(sv.take(skills.len() as int) =~= sv);
    (json_object_array_of(items), false)
}

} // verus!
