//! Skills: the metadata read from a skill file's front matter and the lookup of a skill by
//! id.
use vstd::prelude::*;

use crate::models::SkillFile;
use crate::text::{
    chars_of, find_first, first_from, has_prefix, lines_of, slice_chars, split_lines, str_eq,
    string_of, trim, trim_chars,
};

verus! {

/// Name, description and category gathered from front-matter lines: a line `key: value`
/// sets `name` and `description` (the last one wins) and the category from `category` or
/// `domain` while it is still empty.
pub open spec fn front_matter_fields(lines: Seq<Seq<char>>) -> (Seq<char>, Seq<char>, Seq<char>)
    decreases lines.len(),
{
    if lines.len() == 0 {
        (Seq::empty(), Seq::empty(), Seq::empty())
    } else {
        let (name, description, category) = front_matter_fields(lines.drop_last());
        let line = lines.last();
        match first_from(line, ": "@, 0) {
            None => (name, description, category),
            Some(idx) => {
                let key = trim(line.subrange(0, idx));
                let val = trim(line.subrange(idx + 2, line.len() as int));
                if key == "name"@ {
                    (val, description, category)
                } else if key == "description"@ {
                    (name, val, category)
                } else if (key == "category"@ || key == "domain"@) && category.len() == 0 {
                    (name, description, val)
                } else {
                    (name, description, category)
                }
            },
        }
    }
}

/// The front matter of a skill file: the text between an opening `---` line and the next
/// `---` line, when the file starts with one.
pub open spec fn front_matter(content: Seq<char>) -> Option<Seq<char>> {
    if has_prefix(content, "---\n"@) {
        match first_from(content, "\n---\n"@, 0) {
            Some(end) => Some(content.subrange(4, end)),
            None => None,
        }
    } else {
        None
    }
}

/// Name, description and category of a skill file (empty when it has no front matter).
pub open spec fn skill_metadata(content: Seq<char>) -> (Seq<char>, Seq<char>, Seq<char>) {
    match front_matter(content) {
        Some(fm) => front_matter_fields(split_lines(fm)),
        None => (Seq::empty(), Seq::empty(), Seq::empty()),
    }
}

/// Reads name, description and category from a skill file's front matter. A file that
/// opens with two `---` lines in a row has no front matter body and is not accepted.
pub fn parse_frontmatter(content: &str) -> (r: (String, String, String))
    requires
        !has_prefix(content@, "---\n---\n"@),
    ensures
        (r.0@, r.1@, r.2@) == skill_metadata(content@),
{
    let v = chars_of(content);
    let open = chars_of("---\n");
    let close = chars_of("\n---\n");
    proof {
        reveal_strlit("---\n");
        reveal_strlit("\n---\n");
        reveal_strlit("---\n---\n");
    }
    if !crate::text::starts_with_chars(&v, &open) {
        return (String::new(), String::new(), String::new());
    }
    let end = match find_first(&v, &close, 0) {
        Some(e) => e,
        None => return (String::new(), String::new(), String::new()),
    };
    proof {
        crate::text::lemma_first_from(v@, close@, 0, end as int);
        if end < 4 {
            assert(v@.subrange(0, 4) == "---\n"@);
            assert(v@.subrange(end as int, end + 5) == "\n---\n"@);
            assert(v@.subrange(end as int, end + 5)[0] == v@[end as int]);
            assert(v@.subrange(0, 4)[end as int] == v@[end as int]);
            assert(v@[end as int] == '\n');
            assert(end == 3);
            assert forall|k: int| 0 <= k < 8 implies v@[k] == "---\n---\n"@[k] by {
                if k < 4 {
                    assert(v@.subrange(0, 4)[k] == v@[k]);
                } else {
                    assert(v@.subrange(3, 8)[k - 3] == v@[k]);
                }
            }
            assert(v@.subrange(0, 8) =~= "---\n---\n"@);
        }
    }
    let fm = slice_chars(&v, 4, end);
    let lines = lines_of(&fm);
    let ghost ls = lines@.map_values(|l: Vec<char>| l@);
    let mut name = String::new();
    let mut description = String::new();
    let mut category = String::new();
    let sep = chars_of(": ");
    let mut i: usize = 0;
    while i < lines.len()
        invariant
            i <= lines@.len(),
            ls == lines@.map_values(|l: Vec<char>| l@),
            sep@ == ": "@,
            (name@, description@, category@) == front_matter_fields(ls.subrange(0, i as int)),
        decreases lines.len() - i,
    {
        let line = &lines[i];
        let ghost pre = ls.subrange(0, i + 1);
        assert(pre.drop_last() =~= ls.subrange(0, i as int));
        assert(pre.last() == line@);
        if let Some(idx) = find_first(line, &sep, 0) {
            proof {
                reveal_strlit(": ");
                crate::text::lemma_first_from(line@, sep@, 0, idx as int);
            }
            let key = string_of(&trim_chars(&slice_chars(line, 0, idx)));
            let val = string_of(&trim_chars(&slice_chars(line, idx + 2, line.len())));
            if str_eq(key.as_str(), "name") {
                name = val;
            } else if str_eq(key.as_str(), "description") {
                description = val;
            } else if (str_eq(key.as_str(), "category") || str_eq(key.as_str(), "domain"))
                && category.as_str().is_empty() {
                category = val;
            }
        }
        i = i + 1;
    }
    assert(ls.subrange(0, lines@.len() as int) =~= ls);
    (name, description, category)
}

/// A skill read from `<id>/SKILL.md`.
pub fn skill_from_file(id: String, content: String) -> (s: SkillFile)
    requires
        !has_prefix(content@, "---\n---\n"@),
    ensures
        s.id == id,
        s.content == content,
        (s.name@, s.description@, s.category@) == skill_metadata(content@),
{
    let (name, description, category) = parse_frontmatter(content.as_str());
    SkillFile { id, name, description, category, content }
}

/// The first skill with this id, or the error shown when there is none.
pub fn find_skill(skills: Vec<SkillFile>, id: &str) -> (r: Result<SkillFile, String>)
    ensures
        match r {
            Ok(s) => exists|i: int|
                0 <= i < skills@.len() && skills@[i] == s && s.id@ == id@ && forall|j: int|
                    0 <= j < i ==> (#[trigger] skills@[j]).id@ != id@,
            Err(e) => (forall|j: int| 0 <= j < skills@.len() ==> (#[trigger] skills@[j]).id@ != id@)
                && e@ == "Skill '"@ + id@ + "' not found"@,
        },
{
    let ghost orig = skills@;
    let mut source = skills;
    let n = source.len();
    let mut i: usize = 0;
    while i < n
        invariant
            i <= n,
            n == orig.len(),
            source@ == orig.subrange(i as int, n as int),
            orig == skills@,
            forall|j: int| 0 <= j < i ==> (#[trigger] orig[j]).id@ != id@,
        decreases n - i,
    {
        let s = source.remove(0);
        assert(s == orig[i as int]);
        if str_eq(s.id.as_str(), id) {
            assert(skills@[i as int] == s);
            return Ok(s);
        }
        assert(source@ =~= orig.subrange(i + 1, n as int));
        i = i + 1;
    }
    Err(crate::text::concat3("Skill '", id, "' not found"))
}

// ───────────────────────────── ordering ─────────────────────────────

/// `a` comes no later than `b` in code-point order (the order of their UTF-8 bytes).
pub open spec fn lex_le(a: Seq<char>, b: Seq<char>) -> bool
    decreases a.len(),
{
    if a.len() == 0 {
        true
    } else if b.len() == 0 {
        false
    } else if a[0] != b[0] {
        a[0] < b[0]
    } else {
        lex_le(a.drop_first(), b.drop_first())
    }
}

/// Any two texts are ordered one way or the other.
pub proof fn lemma_lex_total(a: Seq<char>, b: Seq<char>)
    ensures
        lex_le(a, b) || lex_le(b, a),
    decreases a.len(),
{
    if a.len() > 0 && b.len() > 0 {
        if a[0] == b[0] {
            lemma_lex_total(a.drop_first(), b.drop_first());
        }
    }
}

/// The order is transitive.
pub proof fn lemma_lex_trans(a: Seq<char>, b: Seq<char>, c: Seq<char>)
    requires
        lex_le(a, b),
        lex_le(b, c),
    ensures
        lex_le(a, c),
    decreases a.len(),
{
    if a.len() > 0 && b.len() > 0 && c.len() > 0 && a[0] == b[0] && b[0] == c[0] {
        lemma_lex_trans(a.drop_first(), b.drop_first(), c.drop_first());
    }
}

/// Whether `a` comes no later than `b`.
pub(crate) fn text_le(a: &str, b: &str) -> (r: bool)
    ensures
        r == lex_le(a@, b@),
{
    let av = chars_of(a);
    let bv = chars_of(b);
    let mut i: usize = 0;
    assert(av@.subrange(0, av@.len() as int) =~= av@);
    assert(bv@.subrange(0, bv@.len() as int) =~= bv@);
    while i < av.len() && i < bv.len() && av[i] == bv[i]
        invariant
            i <= av@.len(),
            i <= bv@.len(),
            lex_le(av@, bv@) == lex_le(av@.subrange(i as int, av@.len() as int), bv@.subrange(i as int, bv@.len() as int)),
        decreases av.len() - i,
    {
        assert(av@.subrange(i as int, av@.len() as int).drop_first() =~= av@.subrange(i + 1, av@.len() as int));
        assert(bv@.subrange(i as int, bv@.len() as int).drop_first() =~= bv@.subrange(i + 1, bv@.len() as int));
        i = i + 1;
    }
    let ghost sa = av@.subrange(i as int, av@.len() as int);
    let ghost sb = bv@.subrange(i as int, bv@.len() as int);
    if i == av.len() {
        assert(sa.len() == 0);
        true
    } else if i == bv.len() {
        assert(sa.len() > 0 && sb.len() == 0);
        false
    } else {
        assert(sa[0] == av@[i as int] && sb[0] == bv@[i as int]);
        assert(sa[0] != sb[0]);
        av[i] < bv[i]
    }
}

/// The skills ordered by name.
pub open spec fn sorted_by_name(s: Seq<SkillFile>) -> bool {
    forall|i: int, j: int| 0 <= i < j < s.len() ==> lex_le(s[i].name@, s[j].name@)
}

/// The skills ordered by name (code-point order); a skill goes after those with the same
/// name that came before it.
pub fn sort_skills_by_name(skills: Vec<SkillFile>) -> (r: Vec<SkillFile>)
    ensures
        sorted_by_name(r@),
        r@.to_multiset() == skills@.to_multiset(),
{
    let ghost orig = skills@;
    let mut source = skills;
    let n = source.len();
    let mut out: Vec<SkillFile> = Vec::new();
    let mut i: usize = 0;
    assert(orig.subrange(0, 0) =~= Seq::<SkillFile>::empty());
    while i < n
        invariant
            i <= n,
            n == orig.len(),
            source@ == orig.subrange(i as int, n as int),
            sorted_by_name(out@),
            out@.to_multiset() == orig.subrange(0, i as int).to_multiset(),
        decreases n - i,
    {
        let x = source.remove(0);
        assert(x == orig[i as int]);
        let mut k: usize = 0;
        while k < out.len() && text_le(out[k].name.as_str(), x.name.as_str())
            invariant
                k <= out@.len(),
                forall|j: int| 0 <= j < k ==> lex_le(out@[j].name@, x.name@),
            decreases out.len() - k,
        {
            k = k + 1;
        }
        proof {
            if k < out@.len() {
                assert(!lex_le(out@[k as int].name@, x.name@));
                lemma_lex_total(out@[k as int].name@, x.name@);
            }
        }
        let ghost before = out@;
        out.insert(k, x);
        assert(out@ == before.insert(k as int, x));
        assert forall|a: int, b: int| 0 <= a < b < out@.len() implies lex_le(
            out@[a].name@,
            out@[b].name@,
        ) by {
            if a < k && b == k {
            } else if a == k && b > k {
                if b > k + 1 {
                    lemma_lex_trans(x.name@, before[k as int].name@, before[b - 1].name@);
                }
            } else if a < k && b > k {
            } else if a > k {
            }
        }
        proof {
            vstd::seq_lib::to_multiset_insert(before, k as int, x);
            vstd::seq_lib::to_multiset_build(orig.subrange(0, i as int), x);
        }
        assert(out@.to_multiset() == before.to_multiset().insert(x));
        assert(orig.subrange(0, i + 1) =~= orig.subrange(0, i as int).push(x));
        assert(orig.subrange(0, i as int).push(x).to_multiset() == orig.subrange(0, i as int).to_multiset().insert(x));
        assert(source@ =~= orig.subrange(i + 1, n as int));
        i = i + 1;
    }
    assert(orig.subrange(0, n as int) =~= orig);
    out
}

} // verus!
