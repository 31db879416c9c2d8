//! The script store: where scripts live on disk, which names are accepted, and
//! how listings are ordered. Reading and writing the files is left to the caller.
use crate::error::{AppError, ErrorKind};
use crate::text::{chars_of, lex_lt, sorted_order, str_eq, str_less, text_sorted};
use vstd::prelude::*;

verus! {

/// File-based store for scripts used by script and Docker tasks.
#[derive(Debug, Clone)]
pub struct ScriptStore {
    pub dir: String,
}

/// Metadata about a stored script (name, type, size, last modified).
#[derive(Debug, Clone)]
pub struct ScriptInfo {
    pub name: String,
    pub script_type: String,
    pub size: u64,
    pub modified: Option<String>,
}

/// A script with its full code content.
#[derive(Debug, Clone)]
pub struct ScriptFull {
    pub name: String,
    pub script_type: String,
    pub code: String,
    pub size: u64,
}

/// Whether `c` is alphanumeric in Unicode's sense (what `char::is_alphanumeric`
/// reports).
pub uninterp spec fn unicode_alphanumeric(c: char) -> bool;

/// `char::is_alphanumeric`. The claim: the answer depends on the character alone
/// and is named [`unicode_alphanumeric`]; it agrees with ASCII letters and digits
/// on ASCII characters.
#[verifier::external_body]
fn is_alphanumeric(c: char) -> (r: bool)
    ensures
        r == unicode_alphanumeric(c),
        (c as u32) < 128 ==> (r == (('a' <= c && c <= 'z') || ('A' <= c && c <= 'Z') || ('0' <= c
            && c <= '9'))),
{
    c.is_alphanumeric()
}

/// A name accepted for a script: alphanumeric characters, dashes and underscores.
pub open spec fn valid_script_name(name: Seq<char>) -> bool {
    forall|i: int|
        0 <= i < name.len() ==> unicode_alphanumeric(#[trigger] name[i]) || name[i] == '-' || name[i]
            == '_'
}

/// Whether a script name is accepted.
pub fn is_valid_script_name(name: &str) -> (r: bool)
    ensures
        r == valid_script_name(name@),
{
    let cs = chars_of(name);
    let mut i: usize = 0;
    while i < cs.len()
        invariant
            i <= cs@.len(),
            cs@ == name@,
            forall|k: int|
                0 <= k < i ==> unicode_alphanumeric(#[trigger] cs@[k]) || cs@[k] == '-' || cs@[k]
                    == '_',
        decreases cs.len() - i,
    {
        let c = cs[i];
        if !(is_alphanumeric(c) || c == '-' || c == '_') {
            return false;
        }
        i = i + 1;
    }
    true
}

/// `dir` joined with a relative file name, as a Unix path: a separator is put in
/// between unless `dir` is empty or already ends with one; an absolute file name
/// replaces `dir`.
pub open spec fn join_path(dir: Seq<char>, file: Seq<char>) -> Seq<char> {
    if file.len() > 0 && file[0] == '/' {
        file
    } else if dir.len() == 0 || dir.last() == '/' {
        dir + file
    } else {
        dir + seq!['/'] + file
    }
}

fn joined(dir: &str, file: &str) -> (r: String)
    ensures
        r@ == join_path(dir@, file@),
{
    let f = chars_of(file);
    if f.len() > 0 && f[0] == '/' {
        return file.to_string();
    }
    let d = chars_of(dir);
    let mut s = dir.to_string();
    if !(d.len() == 0 || d[d.len() - 1] == '/') {
        crate::text::push_char(&mut s, '/');
    }
    s.append(file);
    s
}

/// The file of a script: `<dir>/<name>.<extension>`.
pub open spec fn script_path(dir: Seq<char>, name: Seq<char>, ext: Seq<char>) -> Seq<char> {
    join_path(dir, name + seq!['.'] + ext)
}

/// The extensions a script may have, each with the script type it stands for, in
/// the order they are tried.
pub open spec fn script_extensions() -> Seq<(Seq<char>, Seq<char>)> {
    seq![("rhai"@, "rhai"@), ("dockerfile"@, "dockerfile"@)]
}

/// The extension a script is saved with: `dockerfile` for that type, else `rhai`.
pub open spec fn save_extension(script_type: Option<Seq<char>>) -> Seq<char> {
    match script_type {
        Some(t) => if t == "dockerfile"@ {
            "dockerfile"@
        } else {
            "rhai"@
        },
        None => "rhai"@,
    }
}

impl ScriptStore {
    /// A store over the given directory.
    pub fn new(dir: &str) -> (r: Self)
        ensures
            r.dir@ == dir@,
    {
        ScriptStore { dir: dir.to_string() }
    }

    /// The file a script of this name and extension lives in.
    pub fn path_for(&self, name: &str, ext: &str) -> (r: String)
        ensures
            r@ == script_path(self.dir@, name@, ext@),
    {
        let mut f = name.to_string();
        f.append(".");
        f.append(ext);
        proof {
            reveal_strlit(".");
            assert("."@ =~= seq!['.']);
        }
        assert(f@ =~= name@ + seq!['.'] + ext@);
        joined(self.dir.as_str(), f.as_str())
    }

    /// The files a script of this name may live in, with its type for each, in the
    /// order they are tried when reading or deleting it.
    pub fn candidates(&self, name: &str) -> (r: Vec<(String, String)>)
        ensures
            r@.len() == script_extensions().len(),
            forall|i: int|
                0 <= i < r@.len() ==> #[trigger] r@[i].0@ == script_path(
                    self.dir@,
                    name@,
                    script_extensions()[i].0,
                ) && r@[i].1@ == script_extensions()[i].1,
    {
        let mut r: Vec<(String, String)> = Vec::new();
        r.push((self.path_for(name, "rhai"), "rhai".to_string()));
        r.push((self.path_for(name, "dockerfile"), "dockerfile".to_string()));
        r
    }

    /// The file a script is saved to, or the error for a name that is refused: a
    /// `dockerfile` type gets that extension, anything else `rhai`.
    pub fn save_path(&self, name: &str, script_type: Option<&str>) -> (r: Result<String, AppError>)
        ensures
            match r {
                Ok(p) => valid_script_name(name@) && p@ == script_path(
                    self.dir@,
                    name@,
                    save_extension(
                        match script_type {
                            Some(t) => Some(t@),
                            None => None,
                        },
                    ),
                ),
                Err(e) => !valid_script_name(name@) && e@ == (
                    ErrorKind::BadRequest,
                    "script name must be alphanumeric with dashes/underscores"@,
                ),
            },
    {
        if !is_valid_script_name(name) {
            return Err(
                AppError::BadRequest(
                    "script name must be alphanumeric with dashes/underscores".to_string(),
                ),
            );
        }
        let ext = match script_type {
            Some(t) => if str_eq(t, "dockerfile") {
                "dockerfile"
            } else {
                "rhai"
            },
            None => "rhai",
        };
        Ok(self.path_for(name, ext))
    }
}

/// The script type of a file extension, if it is one of the store's.
pub fn script_type_of(ext: &str) -> (r: Option<&'static str>)
    ensures
        match r {
            Some(t) => (ext@ == "rhai"@ && t@ == "rhai"@) || (ext@ == "dockerfile"@ && t@
                == "dockerfile"@),
            None => ext@ != "rhai"@ && ext@ != "dockerfile"@,
        },
{
    if str_eq(ext, "rhai") {
        Some("rhai")
    } else if str_eq(ext, "dockerfile") {
        Some("dockerfile")
    } else {
        None
    }
}

/// The error for a script that does not exist.
pub fn script_not_found(name: &str) -> (r: AppError)
    ensures
        r@ == (ErrorKind::NotFound, "script '"@ + name@ + "' not found"@),
{
    let mut m = String::new();
    m.append("script '");
    m.append(name);
    m.append("' not found");
    AppError::NotFound(m)
}

/// The full form of a script read from disk: its size is its code's length in bytes.
pub fn script_full(name: &str, script_type: &str, code: String) -> (r: ScriptFull)
    ensures
        r.name@ == name@,
        r.script_type@ == script_type@,
        r.code == code,
        r.size == (vstd::utf8::encode_utf8(code@).len() as usize) as u64,
{
    let size = code.as_str().len() as u64;
    ScriptFull { name: name.to_string(), script_type: script_type.to_string(), code, size }
}

/// What a listing shows of a script: name, type, size and modification time.
pub open spec fn info_view(s: ScriptInfo) -> (Seq<char>, Seq<char>, u64, Option<Seq<char>>) {
    (
        s.name@,
        s.script_type@,
        s.size,
        match s.modified {
            Some(m) => Some(m@),
            None => None,
        },
    )
}

/// The names of the scripts, in order.
pub open spec fn info_names(v: Seq<ScriptInfo>) -> Seq<Seq<char>> {
    v.map_values(|s: ScriptInfo| s.name@)
}

fn copy_info(s: &ScriptInfo) -> (r: ScriptInfo)
    ensures
        info_view(r) == info_view(*s),
{
    let modified = match &s.modified {
        Some(m) => Some(m.clone()),
        None => None,
    };
    ScriptInfo { name: s.name.clone(), script_type: s.script_type.clone(), size: s.size, modified }
}

/// The scripts ordered by name, ascending; scripts of one name keep their order.
pub fn sort_by_name(scripts: &Vec<ScriptInfo>) -> (r: Vec<ScriptInfo>)
    ensures
        r@.len() == scripts@.len(),
        exists|order: Seq<usize>|
            text_sorted(info_names(scripts@), order) && forall|i: int|
                0 <= i < r@.len() ==> #[trigger] info_view(r@[i]) == info_view(
                    scripts@[order[i] as int],
                ),
{
    let mut names: Vec<String> = Vec::new();
    let mut k: usize = 0;
    while k < scripts.len()
        invariant
            k <= scripts@.len(),
            names@.len() == k,
            forall|j: int| 0 <= j < k ==> #[trigger] names@[j]@ == scripts@[j].name@,
        decreases scripts.len() - k,
    {
        names.push(scripts[k].name.clone());
        k = k + 1;
    }
    assert(crate::text::texts(names@) =~= info_names(scripts@));
    let order = sorted_order(&names);
    let mut r: Vec<ScriptInfo> = Vec::new();
    let mut i: usize = 0;
    while i < order.len()
        invariant
            i <= order@.len(),
            text_sorted(info_names(scripts@), order@),
            info_names(scripts@).len() == scripts@.len(),
            r@.len() == i,
            forall|j: int| 0 <= j < i ==> #[trigger] info_view(r@[j]) == info_view(
                scripts@[order@[j] as int],
            ),
        decreases order.len() - i,
    {
        let at = order[i];
        assert(at < scripts@.len());
        r.push(copy_info(&scripts[at]));
        i = i + 1;
    }
    r
}

} // verus!
