//! Exclusion rules applied while packing a directory.
use vstd::prelude::*;
use vstd::string::*;
use crate::text::{
    contains, ends_with, seq_contains, seq_ends_with, seq_starts_with, split_on,
    split_spec, starts_with, to_forward_slashes, trim, trim_spec, views,
};

verus! {

/// `path` with every backslash turned into a forward slash.
pub open spec fn normalize_path(path: Seq<char>) -> Seq<char> {
    path.map_values(|c: char| if c == '\\' { '/' } else { c })
}

/// The part of `path` after its last `/`.
pub open spec fn basename(path: Seq<char>) -> Seq<char>
    decreases path.len(),
{
    if path.len() == 0 || path.last() == '/' {
        Seq::<char>::empty()
    } else {
        basename(path.drop_last()).push(path.last())
    }
}

/// Whether one exclusion pattern matches a relative path.
///
/// `*.X` looks at the base name; `*mid*` (longer than two characters), `prefix*`,
/// `*suffix` and any other pattern look at the whole normalized path, in that order.
pub open spec fn rule_matches(pattern: Seq<char>, path: Seq<char>) -> bool {
    let norm = normalize_path(path);
    let n = pattern.len();
    if n >= 2 && pattern[0] == '*' && pattern[1] == '.' {
        seq_ends_with(basename(norm), pattern.drop_first())
    } else if n > 2 && pattern[0] == '*' && pattern[n - 1] == '*' {
        seq_contains(norm, pattern.subrange(1, n - 1))
    } else if n >= 1 && pattern[n - 1] == '*' {
        seq_starts_with(norm, pattern.drop_last())
    } else if n >= 1 && pattern[0] == '*' {
        seq_ends_with(norm, pattern.drop_first())
    } else {
        norm == pattern
    }
}

/// Whether some rule of the list matches the path.
pub open spec fn rules_exclude(rules: Seq<Seq<char>>, path: Seq<char>) -> bool {
    exists|i: int| 0 <= i < rules.len() && rule_matches(#[trigger] rules[i], path)
}

/// A trimmed line of an ignore file that holds a rule: not blank, not a comment.
pub open spec fn is_rule_line(line: Seq<char>) -> bool {
    line.len() > 0 && line[0] != '#'
}

/// The trimmed rule lines among `lines`, in order.
pub open spec fn kept_lines(lines: Seq<Seq<char>>) -> Seq<Seq<char>>
    decreases lines.len(),
{
    if lines.len() == 0 {
        Seq::<Seq<char>>::empty()
    } else {
        let rest = kept_lines(lines.drop_last());
        let t = trim_spec(lines.last());
        if is_rule_line(t) {
            rest.push(t)
        } else {
            rest
        }
    }
}

/// The rules that an ignore file's text gives.
pub open spec fn ignore_file_rules(content: Seq<char>) -> Seq<Seq<char>> {
    kept_lines(split_spec(content, '\n'))
}

/// The rules used when the caller does not override them.
pub open spec fn default_excludes() -> Seq<Seq<char>> {
    seq![".git"@]
}

/// User patterns that consist of one empty string: drop the default excludes.
pub open spec fn is_override(user: Seq<Seq<char>>) -> bool {
    user.len() == 1 && user[0].len() == 0
}

/// The rule list for one pack, from the ignore file's text (if it could be read)
/// and the user's patterns (if any were given).
pub open spec fn compose_rules(file: Option<Seq<char>>, user: Option<Seq<Seq<char>>>) -> Seq<
    Seq<char>,
> {
    let from_file = match file {
        Some(c) => ignore_file_rules(c),
        None => Seq::<Seq<char>>::empty(),
    };
    match user {
        None => from_file + default_excludes(),
        Some(u) => if is_override(u) {
            from_file
        } else {
            from_file + default_excludes() + u
        },
    }
}

/// The view of an optional string.
pub open spec fn opt_view(s: Option<&str>) -> Option<Seq<char>> {
    match s {
        Some(t) => Some(t@),
        None => None,
    }
}

/// The views of an optional list of strings.
pub open spec fn opt_views(v: Option<&Vec<String>>) -> Option<Seq<Seq<char>>> {
    match v {
        Some(w) => Some(views(w@)),
        None => None,
    }
}

/// The part of `path` after its last `/`.
pub fn base_name(path: &str) -> (r: String)
    ensures
        r@ == basename(path@),
{
    let n = path.unicode_len();
    let mut j: usize = n;
    assert(path@.subrange(0, n as int) =~= path@);
    assert(path@.subrange(n as int, n as int) =~= Seq::<char>::empty());
    while j > 0 && path.get_char(j - 1) != '/'
        invariant
            n == path@.len(),
            j <= n,
            basename(path@) == basename(path@.subrange(0, j as int)) + path@.subrange(
                j as int,
                n as int,
            ),
        decreases j,
    {
        let ghost pre = path@.subrange(0, j as int);
        assert(pre.drop_last() =~= path@.subrange(0, j - 1));
        assert(path@.subrange(j - 1, n as int) =~= seq![pre.last()] + path@.subrange(
            j as int,
            n as int,
        ));
        assert(basename(pre) == basename(pre.drop_last()).push(pre.last()));
        assert(basename(pre.drop_last()).push(pre.last()) + path@.subrange(j as int, n as int)
            =~= basename(pre.drop_last()) + path@.subrange(j - 1, n as int));
        j = j - 1;
    }
    assert(basename(path@.subrange(0, j as int)) =~= Seq::<char>::empty());
    assert(basename(path@) =~= path@.subrange(j as int, n as int));
    String::from_str(path.substring_char(j, n))
}

/// Whether one exclusion pattern matches a relative path: `*.X` when the base
/// name ends with `.X`; `*mid*` when the path contains `mid`; `prefix*` when it
/// starts with `prefix`; `*suffix` when it ends with `suffix`; any other pattern
/// when it equals the path. Backslashes in the path count as `/`.
pub fn pattern_matches(pattern: &str, path: &str) -> (r: bool)
    ensures
        r == rule_matches(pattern@, path@),
{
    let norm = to_forward_slashes(path);
    let n = pattern.unicode_len();
    let first_star = n >= 1 && pattern.get_char(0) == '*';
    let last_star = n >= 1 && pattern.get_char(n - 1) == '*';
    if n >= 2 && first_star && pattern.get_char(1) == '.' {
        let base = base_name(norm.as_str());
        ends_with(base.as_str(), pattern.substring_char(1, n))
    } else if n > 2 && first_star && last_star {
        contains(norm.as_str(), pattern.substring_char(1, n - 1))
    } else if last_star {
        starts_with(norm.as_str(), pattern.substring_char(0, n - 1))
    } else if first_star {
        ends_with(norm.as_str(), pattern.substring_char(1, n))
    } else {
        crate::text::str_eq(norm.as_str(), pattern)
    }
}

/// Whether some rule of `rules` matches the relative path.
pub fn is_excluded(rules: &Vec<String>, path: &str) -> (r: bool)
    ensures
        r == rules_exclude(views(rules@), path@),
{
    let mut i: usize = 0;
    while i < rules.len()
        invariant
            i <= rules@.len(),
            forall|k: int| 0 <= k < i ==> !rule_matches(#[trigger] views(rules@)[k], path@),
        decreases rules@.len() - i,
    {
        if pattern_matches(rules[i].as_str(), path) {
            assert(views(rules@)[i as int] == rules@[i as int]@);
            return true;
        }
        assert(views(rules@)[i as int] == rules@[i as int]@);
        i = i + 1;
    }
    false
}

/// The rules of an ignore file: each line trimmed, blank lines and `#` comments left out.
pub fn parse_ignore_file(content: &str) -> (r: Vec<String>)
    ensures
        views(r@) == ignore_file_rules(content@),
{
    let lines = split_on(content, '\n');
    let ghost lv = views(lines@);
    let mut out: Vec<String> = Vec::new();
    let mut i: usize = 0;
    while i < lines.len()
        invariant
            lv == views(lines@),
            i <= lines@.len(),
            views(out@) == kept_lines(lv.subrange(0, i as int)),
        decreases lines@.len() - i,
    {
        let t = trim(lines[i].as_str());
        let ghost pre = lv.subrange(0, i + 1);
        assert(pre.drop_last() =~= lv.subrange(0, i as int));
        assert(pre.last() == lines@[i as int]@);
        if t.unicode_len() > 0 && t.as_str().get_char(0) != '#' {
            out.push(t);
            assert(views(out@) =~= views(out@.drop_last()).push(t@));
        }
        i = i + 1;
    }
    assert(lv.subrange(0, lines@.len() as int) =~= lv);
    out
}

/// The rule list for one pack.
///
/// Without user patterns: the ignore file's rules and then `.git`. With user
/// patterns that are a single empty string: the ignore file's rules alone. With
/// other user patterns: the ignore file's rules, `.git`, then the patterns. An
/// ignore file that is absent or could not be read is `None` and gives no rules.
pub fn compose_ignore_rules(ignore_file: Option<&str>, user_patterns: Option<&Vec<String>>) -> (r:
    Vec<String>)
    ensures
        views(r@) == compose_rules(opt_view(ignore_file), opt_views(user_patterns)),
{
    let mut rules: Vec<String> = match ignore_file {
        Some(c) => parse_ignore_file(c),
        None => Vec::new(),
    };
    let ghost from_file = views(rules@);
    let overridden = match user_patterns {
        Some(u) => u.len() == 1 && u[0].unicode_len() == 0,
        None => false,
    };
    proof {
        if let Some(u) = user_patterns {
            if u@.len() == 1 {
                assert(views(u@)[0] == u@[0]@);
            }
        }
    }
    if !overridden {
        rules.push(String::from_str(".git"));
        assert(views(rules@) =~= from_file + default_excludes());
        if let Some(u) = user_patterns {
            let ghost base = views(rules@);
            let mut i: usize = 0;
            while i < u.len()
                invariant
                    i <= u@.len(),
                    views(rules@) == base + views(u@).subrange(0, i as int),
                decreases u@.len() - i,
            {
                let ghost prev = views(rules@);
                let p = u[i].clone();
                rules.push(p);
                assert(views(u@)[i as int] == u@[i as int]@);
                assert(views(u@).subrange(0, i + 1) =~= views(u@).subrange(0, i as int).push(
                    u@[i as int]@,
                ));
                assert(views(rules@) =~= prev.push(p@));
                assert(base + views(u@).subrange(0, i + 1) =~= (base + views(u@).subrange(
                    0,
                    i as int,
                )).push(u@[i as int]@));
                i = i + 1;
            }
            assert(views(u@).subrange(0, u@.len() as int) =~= views(u@));
        }
    }
    rules
}

/// The name under which a walked entry is stored, or `None` when it is left out:
/// the archive being written, an entry that a rule excludes, and anything that is
/// not a file are left out. Stored names use `/` as separator.
pub fn archive_entry_name(rules: &Vec<String>, rel_path: &str, is_output: bool, is_file: bool) -> (r:
    Option<String>)
    ensures
        r is None <==> (is_output || !is_file || rules_exclude(views(rules@), rel_path@)),
        r matches Some(name) ==> name@ == normalize_path(rel_path@),
{
    if is_output {
        return None;
    }
    if is_excluded(rules, rel_path) {
        return None;
    }
    if !is_file {
        return None;
    }
    Some(to_forward_slashes(rel_path))
}

/// The shorthand forms of a pattern, for any stem `x` and any path: `*.x`
/// matches exactly when the base name ends with `.x`; `*x*` (with `x` not empty
/// and not starting with `.`) exactly when the normalized path contains `x`;
/// `x*` (with `x` not starting with `*`) exactly when it starts with `x`; `*x`
/// (with `x` neither starting with `.` nor ending with `*`) exactly when it ends
/// with `x`; and a pattern with no `*` at either end exactly when it equals the
/// normalized path.
pub proof fn lemma_pattern_shorthands(x: Seq<char>, path: Seq<char>)
    ensures
        rule_matches(seq!['*', '.'] + x, path) == seq_ends_with(
            basename(normalize_path(path)),
            seq!['.'] + x,
        ),
        x.len() > 0 && x[0] != '.' ==> rule_matches(seq!['*'] + x + seq!['*'], path)
            == seq_contains(normalize_path(path), x),
        x.len() == 0 || x[0] != '*' ==> rule_matches(x + seq!['*'], path) == seq_starts_with(
            normalize_path(path),
            x,
        ),
        x.len() == 0 || (x[0] != '.' && x.last() != '*') ==> rule_matches(seq!['*'] + x, path)
            == seq_ends_with(normalize_path(path), x),
        x.len() == 0 || (x[0] != '*' && x.last() != '*') ==> rule_matches(x, path) == (
        normalize_path(path) == x),
{
    let ext = seq!['*', '.'] + x;
    assert(ext[0] == '*' && ext[1] == '.');
    assert(ext.drop_first() =~= seq!['.'] + x);
    if x.len() > 0 {
        let mid = seq!['*'] + x + seq!['*'];
        assert(mid[0] == '*' && mid[1] == x[0] && mid[mid.len() - 1] == '*');
        assert(mid.subrange(1, mid.len() - 1) =~= x);
        let suf = seq!['*'] + x;
        assert(suf[0] == '*' && suf[1] == x[0] && suf[suf.len() - 1] == x.last());
        assert(suf.drop_first() =~= x);
        let pre = x + seq!['*'];
        assert(pre[0] == x[0] && pre[pre.len() - 1] == '*');
        assert(pre.drop_last() =~= x);
        assert(x[x.len() - 1] == x.last());
    } else {
        assert(seq!['*'] + x =~= seq!['*']);
        assert(x + seq!['*'] =~= seq!['*']);
        assert(seq!['*'].drop_last() =~= x);
        let n = normalize_path(path);
        assert(n.subrange(0, 0) =~= x);
        assert(n.subrange(n.len() as int, n.len() as int) =~= x);
    }
}

} // verus!
