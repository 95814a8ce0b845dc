//! Decisions taken while unpacking an archive into a staging directory.
use vstd::prelude::*;
use vstd::string::*;
use crate::patterns::{basename, normalize_path};
use crate::text::{ends_with, seq_ends_with, split_on, split_spec, str_eq, to_forward_slashes, views};
use crate::patterns::base_name;

verus! {

/// A stored name that would leave the staging directory: it starts at a root,
/// climbs with `..`, or names a drive with `:`. Backslashes count as `/`.
pub open spec fn escapes_staging(name: Seq<char>) -> bool {
    let parts = split_spec(normalize_path(name), '/');
    (name.len() > 0 && normalize_path(name)[0] == '/') || exists|i: int|
        0 <= i < parts.len() && (#[trigger] parts[i] == ".."@ || parts[i].contains(':'))
}

/// The non-empty pieces of `parts`, in order.
pub open spec fn nonempty_parts(parts: Seq<Seq<char>>) -> Seq<Seq<char>>
    decreases parts.len(),
{
    if parts.len() == 0 {
        Seq::empty()
    } else {
        let rest = nonempty_parts(parts.drop_last());
        if parts.last().len() > 0 {
            rest.push(parts.last())
        } else {
            rest
        }
    }
}

/// The path components under the staging directory of a stored name.
pub open spec fn entry_parts(name: Seq<char>) -> Seq<Seq<char>> {
    nonempty_parts(split_spec(normalize_path(name), '/'))
}

/// The extension of a file name, from its last `.` on; empty when it has none.
pub open spec fn extension_of(name: Seq<char>) -> Seq<char>
    decreases name.len(),
{
    if name.len() == 0 {
        Seq::empty()
    } else if name.last() == '.' {
        seq!['.']
    } else {
        let e = extension_of(name.drop_last());
        if e.len() == 0 {
            e
        } else {
            e.push(name.last())
        }
    }
}

/// A stored file receives execute permission when its name ends with the entry
/// point's extension, or when its base name has no extension at all.
pub open spec fn wants_exec(name: Seq<char>, entry: Seq<char>) -> bool {
    let ext = extension_of(basename(normalize_path(entry)));
    (ext.len() > 0 && seq_ends_with(name, ext)) || !basename(normalize_path(name)).contains('.')
}

/// The launcher's command line: `run`, the launcher's arguments, the script, the
/// script's arguments.
pub open spec fn launcher_line(
    launcher_args: Seq<Seq<char>>,
    script: Seq<char>,
    script_args: Seq<Seq<char>>,
) -> Seq<Seq<char>> {
    seq!["run"@] + launcher_args + seq![script] + script_args
}

/// Why an archive could not be run.
#[derive(Debug)]
pub enum ExtractError {
    /// A stored name points outside the staging directory.
    UnsafePath(String),
    /// The entry point is not among the extracted files.
    ScriptNotFound(String),
}

impl ExtractError {
    /// A sentence describing the error.
    pub fn message(&self) -> (r: String)
        ensures
            self matches ExtractError::UnsafePath(n) ==> r@ == "Entry "@ + n@
                + " would be written outside the staging directory"@,
            self matches ExtractError::ScriptNotFound(s) ==> r@ == "Script "@ + s@
                + " not found in archive"@,
    {
        match self {
            ExtractError::UnsafePath(n) => {
                let mut r = String::from_str("Entry ");
                r.append(n.as_str());
                r.append(" would be written outside the staging directory");
                r
            },
            ExtractError::ScriptNotFound(s) => {
                let mut r = String::from_str("Script ");
                r.append(s.as_str());
                r.append(" not found in archive");
                r
            },
        }
    }
}

fn has_char(s: &str, c: char) -> (r: bool)
    ensures
        r == s@.contains(c),
{
    let n = s.unicode_len();
    let mut i: usize = 0;
    while i < n
        invariant
            n == s@.len(),
            i <= n,
            forall|k: int| 0 <= k < i ==> s@[k] != c,
        decreases n - i,
    {
        if s.get_char(i) == c {
            assert(s@[i as int] == c);
            return true;
        }
        i = i + 1;
    }
    false
}

/// The components under the staging directory at which a stored entry is
/// written, or an error, before anything is written, when the name would leave
/// the staging directory.
pub fn entry_components(name: &str) -> (r: Result<Vec<String>, ExtractError>)
    ensures
        r is Err <==> escapes_staging(name@),
        r matches Ok(parts) ==> views(parts@) == entry_parts(name@),
        r matches Err(e) ==> e matches ExtractError::UnsafePath(n) && n@ == name@,
{
    let norm = to_forward_slashes(name);
    if norm.unicode_len() > 0 && norm.as_str().get_char(0) == '/' {
        return Err(ExtractError::UnsafePath(String::from_str(name)));
    }
    let parts = split_on(norm.as_str(), '/');
    let ghost pv = views(parts@);
    let mut out: Vec<String> = Vec::new();
    let mut i: usize = 0;
    while i < parts.len()
        invariant
            pv == views(parts@),
            pv == split_spec(normalize_path(name@), '/'),
            i <= parts@.len(),
            !(name@.len() > 0 && normalize_path(name@)[0] == '/'),
            forall|k: int| 0 <= k < i ==> !(#[trigger] pv[k] == ".."@ || pv[k].contains(':')),
            views(out@) == nonempty_parts(pv.subrange(0, i as int)),
        decreases parts@.len() - i,
    {
        let p = parts[i].as_str();
        assert(pv[i as int] == p@);
        if str_eq(p, "..") || has_char(p, ':') {
            return Err(ExtractError::UnsafePath(String::from_str(name)));
        }
        let ghost pre = pv.subrange(0, i + 1);
        assert(pre.drop_last() =~= pv.subrange(0, i as int));
        if p.unicode_len() > 0 {
            let ghost prev = views(out@);
            out.push(String::from_str(p));
            assert(views(out@) =~= prev.push(p@));
        }
        i = i + 1;
    }
    assert(pv.subrange(0, parts@.len() as int) =~= pv);
    Ok(out)
}

/// The components of every stored name, in order, or the first name that would
/// leave the staging directory: all names are checked before anything is written.
pub fn staging_layout(names: &Vec<String>) -> (r: Result<Vec<Vec<String>>, ExtractError>)
    ensures
        r is Err <==> exists|i: int| 0 <= i < names@.len() && escapes_staging(#[trigger] names@[i]@),
        r matches Ok(layout) ==> layout@.len() == names@.len() && forall|i: int|
            0 <= i < names@.len() ==> views(#[trigger] layout@[i]@) == entry_parts(names@[i]@),
        r matches Err(e) ==> exists|i: int|
            0 <= i < names@.len() && escapes_staging(#[trigger] names@[i]@) && (
            e matches ExtractError::UnsafePath(n) && n@ == names@[i]@),
{
    let mut layout: Vec<Vec<String>> = Vec::new();
    let mut i: usize = 0;
    while i < names.len()
        invariant
            i <= names@.len(),
            layout@.len() == i,
            forall|k: int| 0 <= k < i ==> !escapes_staging(#[trigger] names@[k]@),
            forall|k: int| 0 <= k < i ==> views(#[trigger] layout@[k]@) == entry_parts(names@[k]@),
        decreases names@.len() - i,
    {
        match entry_components(names[i].as_str()) {
            Ok(parts) => layout.push(parts),
            Err(e) => {
                assert(escapes_staging(names@[i as int]@));
                return Err(e);
            },
        }
        i = i + 1;
    }
    Ok(layout)
}

/// The extension of a file name, from its last `.` on; empty when it has none.
pub fn extension(name: &str) -> (r: String)
    ensures
        r@ == extension_of(name@),
{
    let n = name.unicode_len();
    let mut j: usize = n;
    while j > 0 && name.get_char(j - 1) != '.'
        invariant
            n == name@.len(),
            j <= n,
            forall|k: int| j <= k < n ==> name@[k] != '.',
        decreases j,
    {
        j = j - 1;
    }
    proof {
        lemma_extension_of(name@, j as nat);
    }
    if j == 0 {
        String::new()
    } else {
        String::from_str(name.substring_char(j - 1, n))
    }
}

proof fn lemma_extension_of(s: Seq<char>, j: nat)
    requires
        j <= s.len(),
        forall|k: int| j <= k < s.len() ==> s[k] != '.',
        j > 0 ==> s[j - 1] == '.',
    ensures
        extension_of(s) == if j == 0 {
            Seq::<char>::empty()
        } else {
            s.subrange(j - 1, s.len() as int)
        },
    decreases s.len(),
{
    if s.len() == 0 {
    } else if s.last() == '.' {
        assert(j == s.len());
        assert(s.subrange(j - 1, s.len() as int) =~= seq!['.']);
    } else {
        let t = s.drop_last();
        if j == s.len() {
            assert(s[j - 1] == s.last());
        }
        assert(j <= t.len());
        lemma_extension_of(t, j);
        if j > 0 {
            assert(s.subrange(j - 1, s.len() as int) =~= t.subrange(j - 1, t.len() as int).push(
                s.last(),
            ));
        }
    }
}

/// Whether an extracted file receives execute permission: its stored name ends
/// with the entry point's extension, or its base name has no extension.
pub fn wants_exec_permission(name: &str, entry: &str) -> (r: bool)
    ensures
        r == wants_exec(name@, entry@),
{
    let entry_norm = to_forward_slashes(entry);
    let entry_base = base_name(entry_norm.as_str());
    let ext = extension(entry_base.as_str());
    if ext.unicode_len() > 0 && ends_with(name, ext.as_str()) {
        return true;
    }
    let norm = to_forward_slashes(name);
    let base = base_name(norm.as_str());
    !has_char(base.as_str(), '.')
}

/// The launcher's command line for a script extracted at `script_path`.
pub fn launcher_command_args(launcher_args: &Vec<String>, script_path: &str, script_args: &Vec<
    String,
>) -> (r: Vec<String>)
    ensures
        views(r@) == launcher_line(views(launcher_args@), script_path@, views(script_args@)),
{
    let mut out: Vec<String> = Vec::new();
    out.push(String::from_str("run"));
    let ghost head = views(out@);
    assert(head =~= seq!["run"@]);
    let mut i: usize = 0;
    while i < launcher_args.len()
        invariant
            i <= launcher_args@.len(),
            views(out@) == head + views(launcher_args@).subrange(0, i as int),
        decreases launcher_args@.len() - i,
    {
        let ghost prev = views(out@);
        let a = launcher_args[i].clone();
        out.push(a);
        assert(views(out@) =~= prev.push(a@));
        assert(views(launcher_args@).subrange(0, i + 1) =~= views(launcher_args@).subrange(
            0,
            i as int,
        ).push(launcher_args@[i as int]@));
        i = i + 1;
    }
    assert(views(launcher_args@).subrange(0, launcher_args@.len() as int) =~= views(
        launcher_args@,
    ));
    let ghost prev = views(out@);
    let s = String::from_str(script_path);
    out.push(s);
    assert(views(out@) =~= prev.push(s@));
    let ghost mid = views(out@);
    let mut j: usize = 0;
    while j < script_args.len()
        invariant
            j <= script_args@.len(),
            views(out@) == mid + views(script_args@).subrange(0, j as int),
        decreases script_args@.len() - j,
    {
        let ghost prev = views(out@);
        let a = script_args[j].clone();
        out.push(a);
        assert(views(out@) =~= prev.push(a@));
        assert(views(script_args@).subrange(0, j + 1) =~= views(script_args@).subrange(
            0,
            j as int,
        ).push(script_args@[j as int]@));
        j = j + 1;
    }
    assert(views(script_args@).subrange(0, script_args@.len() as int) =~= views(script_args@));
    assert(views(out@) =~= launcher_line(
        views(launcher_args@),
        script_path@,
        views(script_args@),
    ));
    out
}

} // verus!
