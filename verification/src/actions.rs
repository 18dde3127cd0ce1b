use vstd::prelude::*;
use vstd::string::StringExecFns;

use crate::backend::{FileOpenOptions, HostBackend};
use crate::config::{blank, contains_str, HostConfig};
use crate::json::{
    model_fields, obj_fields, obj_get, parse_json, spec_obj_get, Json, JsonV,
};
use crate::process::{clone_bytes, EnvVar, SpawnOptions, StdioMode};
use crate::provider::{spec_checked_path, DirEntry, EntryKind, HostState, PathCheck};
use crate::text::{base64_of, str_eq, trimmed, utf8_lossy_of, utf8_lossy_text};

verus! {

/// The default byte ceiling for a bounded file read.
pub const DEFAULT_READ_LIMIT: u64 = 4096;

/// One capability request from the guest: a dot-namespaced capability name
/// and an opaque JSON-encoded input, treated as untrusted until validated.
#[derive(Clone, Debug)]
pub struct PlannedAction {
    pub capability: String,
    pub input: String,
    pub audit_tag: Option<String>,
}

/// The structured outcome of one requested action: the capability name, a
/// success flag, the JSON output (null on failure) and an error message.
#[derive(Debug)]
pub struct ActionReport {
    pub capability: String,
    pub success: bool,
    pub output: Json,
    pub error: Option<String>,
}

impl ActionReport {
    /// A successful report carrying the capability's output.
    pub fn succeeded(capability: String, output: Json) -> (r: ActionReport)
        ensures
            r.capability == capability,
            r.success,
            r.output == output,
            r.error is None,
    {
        ActionReport { capability, success: true, output, error: None }
    }

    /// A failed report: null output and the failure's message.
    pub fn failed(capability: String, message: String) -> (r: ActionReport)
        ensures
            r.capability == capability,
            !r.success,
            r.output@ == JsonV::Null,
            r.error == Some(message),
    {
        ActionReport { capability, success: false, output: Json::Null, error: Some(message) }
    }
}

/// The validated parameters of a bounded file read.
pub open spec fn spec_read_file_params(inp: JsonV) -> Result<(Seq<char>, u64), Seq<char>> {
    match inp {
        JsonV::Obj(fields) => match spec_obj_get(fields, "path"@) {
            Some(JsonV::Str(p)) => if blank(p) {
                Result::Err("fs.read_file requires a non-empty `path`"@)
            } else {
                match spec_obj_get(fields, "max_bytes"@) {
                    None => Result::Ok((p, DEFAULT_READ_LIMIT)),
                    Some(JsonV::Int(n)) => if 0 <= n {
                        Result::Ok((p, n as u64))
                    } else {
                        Result::Err("invalid `max_bytes`"@)
                    },
                    Some(_) => Result::Err("invalid `max_bytes`"@),
                }
            },
            _ => Result::Err("fs.read_file requires a non-empty `path`"@),
        },
        _ => Result::Err("capability input must be a JSON object"@),
    }
}

/// Validates a bounded file read's input document.
pub fn read_file_params(input: &Json) -> (r: Result<(String, u64), String>)
    ensures
        match spec_read_file_params(input@) {
            Result::Ok((p, limit)) => r matches Result::Ok((s, l)) && s@ == p && l == limit,
            Result::Err(msg) => r matches Result::Err(m) && m@ == msg,
        },
{
    let fields = match obj_fields(input) {
        Some(f) => f,
        None => {
            return Result::Err(String::from_str("capability input must be a JSON object"));
        },
    };
    let path = match obj_get(fields, "path") {
        Some(j) => match j {
            Json::Str(p) => {
                if trimmed(p.as_str()).as_str().is_empty() {
                    return Result::Err(
                        String::from_str("fs.read_file requires a non-empty `path`"),
                    );
                }
                p.clone()
            },
            _ => {
                return Result::Err(String::from_str("fs.read_file requires a non-empty `path`"));
            },
        },
        None => {
            return Result::Err(String::from_str("fs.read_file requires a non-empty `path`"));
        },
    };
    let limit: u64 = match obj_get(fields, "max_bytes") {
        Some(j) => match j {
            Json::Int(n) => {
                if *n >= 0 {
                    *n as u64
                } else {
                    return Result::Err(String::from_str("invalid `max_bytes`"));
                }
            },
            _ => {
                return Result::Err(String::from_str("invalid `max_bytes`"));
            },
        },
        None => DEFAULT_READ_LIMIT,
    };
    Result::Ok((path, limit))
}

/// Law: validating a bounded file read reads only the fields it names, so a
/// payload field the host does not read never affects the outcome.
pub proof fn lemma_read_file_ignores_unread_fields(
    f1: Seq<(Seq<char>, JsonV)>,
    f2: Seq<(Seq<char>, JsonV)>,
)
    requires
        spec_obj_get(f1, "path"@) == spec_obj_get(f2, "path"@),
        spec_obj_get(f1, "max_bytes"@) == spec_obj_get(f2, "max_bytes"@),
    ensures
        spec_read_file_params(JsonV::Obj(f1)) == spec_read_file_params(JsonV::Obj(f2)),
{
}

/// Law: validating a directory listing reads only the field it names.
pub proof fn lemma_list_dir_ignores_unread_fields(
    f1: Seq<(Seq<char>, JsonV)>,
    f2: Seq<(Seq<char>, JsonV)>,
)
    requires
        spec_obj_get(f1, "path"@) == spec_obj_get(f2, "path"@),
    ensures
        spec_list_dir_params(JsonV::Obj(f1)) == spec_list_dir_params(JsonV::Obj(f2)),
{
}

/// Law: validating a spawn request reads only the fields it names.
pub proof fn lemma_spawn_ignores_unread_fields(
    f1: Seq<(Seq<char>, JsonV)>,
    f2: Seq<(Seq<char>, JsonV)>,
)
    requires
        spec_obj_get(f1, "command"@) == spec_obj_get(f2, "command"@),
        spec_obj_get(f1, "args"@) == spec_obj_get(f2, "args"@),
        spec_obj_get(f1, "cwd"@) == spec_obj_get(f2, "cwd"@),
        spec_obj_get(f1, "env"@) == spec_obj_get(f2, "env"@),
    ensures
        spec_spawn_params(JsonV::Obj(f1)) == spec_spawn_params(JsonV::Obj(f2)),
{
}

/// The saturating conversion this host uses to place an unsigned count in a
/// JSON integer.
pub open spec fn spec_int_of_u64(n: u64) -> i64 {
    if n > i64::MAX as u64 {
        i64::MAX
    } else {
        n as i64
    }
}

/// A JSON integer for an unsigned count, saturating at the integer range.
pub fn int_json_u64(n: u64) -> (r: Json)
    ensures
        r@ == JsonV::Int(spec_int_of_u64(n)),
{
    if n > i64::MAX as u64 {
        Json::Int(i64::MAX)
    } else {
        Json::Int(n as i64)
    }
}

/// The file-read output document: the resolved path, whether the content
/// was cut at the ceiling, and the content as text when the bytes kept are
/// valid UTF-8, else base64.
pub open spec fn spec_fs_read_output(path: Seq<char>, limit: u64, bytes: Seq<u8>) -> JsonV {
    let truncated = bytes.len() > limit;
    let kept = if truncated {
        bytes.subrange(0, limit as int)
    } else {
        bytes
    };
    let encoding = if vstd::utf8::valid_utf8(kept) {
        "utf-8"@
    } else {
        "base64"@
    };
    let contents = if vstd::utf8::valid_utf8(kept) {
        vstd::utf8::decode_utf8(kept)
    } else {
        base64_of(kept)
    };
    JsonV::Obj(
        seq![
            ("path"@, JsonV::Str(path)),
            ("truncated"@, JsonV::Bool(truncated)),
            ("encoding"@, JsonV::Str(encoding)),
            ("contents"@, JsonV::Str(contents)),
        ],
    )
}

/// Builds the file-read output from whatever bytes the filesystem returned
/// for a read bounded at `limit + 1`.
pub fn fs_read_output(path: String, limit: u64, bytes: Vec<u8>) -> (r: Json)
    ensures
        r@ == spec_fs_read_output(path@, limit, bytes@),
{
    let ghost orig = bytes@;
    let truncated = bytes.len() as u64 > limit;
    let mut kept = bytes;
    if truncated {
        kept.truncate(limit as usize);
    }
    let ghost kept_view = kept@;
    let ghost spec_kept = if orig.len() > limit {
        orig.subrange(0, limit as int)
    } else {
        orig
    };
    proof {
        assert(kept_view =~= spec_kept);
    }
    let ghost path_view = path@;
    let kept_copy = clone_bytes(&kept);
    let (encoding, contents): (String, String) = match crate::text::utf8_to_string(kept) {
        Some(text) => (String::from_str("utf-8"), text),
        None => (String::from_str("base64"), crate::text::base64_encode(kept_copy.as_slice())),
    };
    let mut fields: Vec<(String, Json)> = Vec::new();
    fields.push((String::from_str("path"), Json::Str(path)));
    fields.push((String::from_str("truncated"), Json::Bool(truncated)));
    fields.push((String::from_str("encoding"), Json::Str(encoding)));
    fields.push((String::from_str("contents"), Json::Str(contents)));
    let ghost fv = fields@;
    let r = Json::Obj(fields);
    proof {
        crate::json::lemma_model_fields_len(fv);
        let m = model_fields(fv);
        let sm = spec_fs_read_output(path_view, limit, orig)->Obj_0;
        assert(fv.len() == 4);
        assert(m[0] == (fv[0].0@, fv[0].1.model()));
        assert(m[1] == (fv[1].0@, fv[1].1.model()));
        assert(m[2] == (fv[2].0@, fv[2].1.model()));
        assert(m[3] == (fv[3].0@, fv[3].1.model()));
        assert(fv[0].1.model() == JsonV::Str(path_view));
        assert(fv[1].1.model() == JsonV::Bool(orig.len() > limit));
        assert(fv[2].1.model() == sm[2].1);
        assert(fv[3].1.model() == sm[3].1);
        assert(m =~= sm);
        assert(r@ == spec_fs_read_output(path_view, limit, orig));
    }
    r
}

/// The validated parameter of a directory listing: the relative path, or
/// none for the workspace root (a blank path also means the root).
pub open spec fn spec_list_dir_params(inp: JsonV) -> Result<Option<Seq<char>>, Seq<char>> {
    match inp {
        JsonV::Obj(fields) => match spec_obj_get(fields, "path"@) {
            None => Result::Ok(None),
            Some(JsonV::Str(p)) => if blank(p) {
                Result::Ok(None)
            } else {
                Result::Ok(Some(p))
            },
            Some(_) => Result::Err("invalid `path`"@),
        },
        _ => Result::Err("capability input must be a JSON object"@),
    }
}

/// Validates a directory listing's input document.
pub fn list_dir_params(input: &Json) -> (r: Result<Option<String>, String>)
    ensures
        match spec_list_dir_params(input@) {
            Result::Ok(None) => r matches Result::Ok(o) && o is None,
            Result::Ok(Some(p)) => r matches Result::Ok(o) && (o matches Some(s) && s@ == p),
            Result::Err(msg) => r matches Result::Err(m) && m@ == msg,
        },
{
    let fields = match obj_fields(input) {
        Some(f) => f,
        None => {
            return Result::Err(String::from_str("capability input must be a JSON object"));
        },
    };
    match obj_get(fields, "path") {
        None => Result::Ok(None),
        Some(j) => match j {
            Json::Str(p) => {
                if trimmed(p.as_str()).as_str().is_empty() {
                    Result::Ok(None)
                } else {
                    Result::Ok(Some(p.clone()))
                }
            },
            _ => Result::Err(String::from_str("invalid `path`")),
        },
    }
}

/// The text name of an entry kind in listing output.
pub open spec fn spec_kind_text(k: EntryKind) -> Seq<char> {
    match k {
        EntryKind::File => "file"@,
        EntryKind::Directory => "directory"@,
        EntryKind::Symlink => "symlink"@,
        EntryKind::Other => "other"@,
    }
}

fn kind_text(k: EntryKind) -> (r: String)
    ensures
        r@ == spec_kind_text(k),
{
    match k {
        EntryKind::File => String::from_str("file"),
        EntryKind::Directory => String::from_str("directory"),
        EntryKind::Symlink => String::from_str("symlink"),
        EntryKind::Other => String::from_str("other"),
    }
}

/// A JSON integer for an optional unsigned count, null when absent.
pub open spec fn spec_opt_int(n: Option<u64>) -> JsonV {
    match n {
        Some(v) => JsonV::Int(spec_int_of_u64(v)),
        None => JsonV::Null,
    }
}

fn opt_int_json(n: Option<u64>) -> (r: Json)
    ensures
        r@ == spec_opt_int(n),
{
    match n {
        Some(v) => int_json_u64(v),
        None => Json::Null,
    }
}

/// One listing entry's output document.
pub open spec fn spec_entry_json(e: DirEntry) -> JsonV {
    JsonV::Obj(
        seq![
            ("name"@, JsonV::Str(e.name@)),
            ("kind"@, JsonV::Str(spec_kind_text(e.kind))),
            ("size_bytes"@, spec_opt_int(e.size_bytes)),
            ("modified_ms"@, spec_opt_int(e.modified_ms)),
        ],
    )
}

/// Builds one listing entry's output document.
pub fn entry_json(e: &DirEntry) -> (r: Json)
    ensures
        r@ == spec_entry_json(*e),
{
    let mut fields: Vec<(String, Json)> = Vec::new();
    fields.push((String::from_str("name"), Json::Str(e.name.clone())));
    fields.push((String::from_str("kind"), Json::Str(kind_text(e.kind))));
    fields.push((String::from_str("size_bytes"), opt_int_json(e.size_bytes)));
    fields.push((String::from_str("modified_ms"), opt_int_json(e.modified_ms)));
    let ghost fv = fields@;
    let r = Json::Obj(fields);
    proof {
        crate::json::lemma_model_fields_len(fv);
        let m = model_fields(fv);
        let sm = spec_entry_json(*e)->Obj_0;
        assert(m[0] == (fv[0].0@, fv[0].1.model()));
        assert(m[1] == (fv[1].0@, fv[1].1.model()));
        assert(m[2] == (fv[2].0@, fv[2].1.model()));
        assert(m[3] == (fv[3].0@, fv[3].1.model()));
        assert(m =~= sm);
    }
    r
}

/// The listing output document: the listed path and its entries, in the
/// order the filesystem reported them.
pub open spec fn spec_list_output(path: Seq<char>, entries: Seq<DirEntry>) -> JsonV {
    JsonV::Obj(
        seq![
            ("path"@, JsonV::Str(path)),
            ("entries"@, JsonV::Arr(entries.map_values(|e: DirEntry| spec_entry_json(e)))),
        ],
    )
}

/// Builds the listing output from whatever entries the filesystem reported.
pub fn fs_list_output(path: String, entries: &Vec<DirEntry>) -> (r: Json)
    ensures
        r@ == spec_list_output(path@, entries@),
{
    let ghost path_view = path@;
    let n = entries.len();
    let mut items: Vec<Json> = Vec::new();
    let mut i: usize = 0;
    while i < n
        invariant
            0 <= i <= n,
            n == entries@.len(),
            items@.len() == i,
            forall|k: int| 0 <= k < i ==> (#[trigger] items@[k])@ == spec_entry_json(entries@[k]),
        decreases n - i,
    {
        items.push(entry_json(&entries[i]));
        i = i + 1;
    }
    let ghost iv = items@;
    let mut fields: Vec<(String, Json)> = Vec::new();
    fields.push((String::from_str("path"), Json::Str(path)));
    fields.push((String::from_str("entries"), Json::Arr(items)));
    let ghost fv = fields@;
    let r = Json::Obj(fields);
    proof {
        crate::json::lemma_model_fields_len(fv);
        crate::json::lemma_model_items_len(iv);
        let m = model_fields(fv);
        let sm = spec_list_output(path_view, entries@)->Obj_0;
        assert(m[0] == (fv[0].0@, fv[0].1.model()));
        assert(m[1] == (fv[1].0@, fv[1].1.model()));
        let mapped = entries@.map_values(|e: DirEntry| spec_entry_json(e));
        assert forall|k: int| 0 <= k < iv.len() implies crate::json::model_items(iv)[k]
            == mapped[k] by {
            assert(crate::json::model_items(iv)[k] == iv[k].model());
            assert(mapped[k] == spec_entry_json(entries@[k]));
        }
        assert(crate::json::model_items(iv) =~= mapped);
        assert(fv[1].1.model() == sm[1].1);
        assert(m =~= sm);
    }
    r
}

/// The validated parameters of a spawn request.
pub open spec fn spec_spawn_params(inp: JsonV) -> Result<
    (Seq<char>, Seq<Seq<char>>, Option<Seq<char>>, Seq<(Seq<char>, Seq<char>)>),
    Seq<char>,
> {
    match inp {
        JsonV::Obj(fields) => match spec_obj_get(fields, "command"@) {
            Some(JsonV::Str(c)) => if blank(c) {
                Result::Err("proc.spawn requires `command`"@)
            } else {
                match spec_args_field(spec_obj_get(fields, "args"@)) {
                    Result::Err(msg) => Result::Err(msg),
                    Result::Ok(args) => match spec_cwd_field(spec_obj_get(fields, "cwd"@)) {
                        Result::Err(msg) => Result::Err(msg),
                        Result::Ok(cwd) => match spec_env_field(spec_obj_get(fields, "env"@)) {
                            Result::Err(msg) => Result::Err(msg),
                            Result::Ok(env) => Result::Ok((c, args, cwd, env)),
                        },
                    },
                }
            },
            _ => Result::Err("proc.spawn requires `command`"@),
        },
        _ => Result::Err("capability input must be a JSON object"@),
    }
}

/// The argument list: absent means empty, and every element must be text.
pub open spec fn spec_args_field(f: Option<JsonV>) -> Result<Seq<Seq<char>>, Seq<char>> {
    match f {
        None => Result::Ok(Seq::empty()),
        Some(JsonV::Arr(items)) => spec_str_items(items),
        Some(_) => Result::Err("invalid `args`"@),
    }
}

pub open spec fn spec_str_items(items: Seq<JsonV>) -> Result<Seq<Seq<char>>, Seq<char>>
    decreases items.len(),
{
    if items.len() == 0 {
        Result::Ok(Seq::empty())
    } else {
        match items[0] {
            JsonV::Str(s) => match spec_str_items(items.drop_first()) {
                Result::Ok(rest) => Result::Ok(seq![s] + rest),
                Result::Err(msg) => Result::Err(msg),
            },
            _ => Result::Err("invalid `args`"@),
        }
    }
}

/// The working directory: absent or blank means the workspace root.
pub open spec fn spec_cwd_field(f: Option<JsonV>) -> Result<Option<Seq<char>>, Seq<char>> {
    match f {
        None => Result::Ok(None),
        Some(JsonV::Str(p)) => if blank(p) {
            Result::Ok(None)
        } else {
            Result::Ok(Some(p))
        },
        Some(_) => Result::Err("invalid `cwd`"@),
    }
}

/// The environment: absent means empty, else objects with text key/value.
pub open spec fn spec_env_field(f: Option<JsonV>) -> Result<
    Seq<(Seq<char>, Seq<char>)>,
    Seq<char>,
> {
    match f {
        None => Result::Ok(Seq::empty()),
        Some(JsonV::Arr(items)) => spec_env_items(items),
        Some(_) => Result::Err("invalid `env`"@),
    }
}

pub open spec fn spec_env_items(items: Seq<JsonV>) -> Result<
    Seq<(Seq<char>, Seq<char>)>,
    Seq<char>,
>
    decreases items.len(),
{
    if items.len() == 0 {
        Result::Ok(Seq::empty())
    } else {
        match items[0] {
            JsonV::Obj(fields) => match (spec_obj_get(fields, "key"@), spec_obj_get(
                fields,
                "value"@,
            )) {
                (Some(JsonV::Str(k)), Some(JsonV::Str(v))) => match spec_env_items(
                    items.drop_first(),
                ) {
                    Result::Ok(rest) => Result::Ok(seq![(k, v)] + rest),
                    Result::Err(msg) => Result::Err(msg),
                },
                _ => Result::Err("invalid `env`"@),
            },
            _ => Result::Err("invalid `env`"@),
        }
    }
}

/// Validates a spawn request's input document.
pub fn spawn_params(input: &Json) -> (r: Result<
    (String, Vec<String>, Option<String>, Vec<EnvVar>),
    String,
>)
    ensures
        match spec_spawn_params(input@) {
            Result::Ok((c, args, cwd, env)) => r matches Result::Ok((rc, ra, rcwd, renv)) && {
                &&& rc@ == c
                &&& ra.deep_view() == args
                &&& match cwd {
                    Some(p) => rcwd matches Some(s) && s@ == p,
                    None => rcwd is None,
                }
                &&& renv@.len() == env.len()
                &&& forall|i: int|
                    0 <= i < env.len() ==> ((#[trigger] renv@[i]).key@ == env[i].0
                        && renv@[i].value@ == env[i].1)
            },
            Result::Err(msg) => r matches Result::Err(m) && m@ == msg,
        },
{
    let fields = match obj_fields(input) {
        Some(f) => f,
        None => {
            return Result::Err(String::from_str("capability input must be a JSON object"));
        },
    };
    let command = match obj_get(fields, "command") {
        Some(j) => match j {
            Json::Str(c) => {
                if trimmed(c.as_str()).as_str().is_empty() {
                    return Result::Err(String::from_str("proc.spawn requires `command`"));
                }
                c.clone()
            },
            _ => {
                return Result::Err(String::from_str("proc.spawn requires `command`"));
            },
        },
        None => {
            return Result::Err(String::from_str("proc.spawn requires `command`"));
        },
    };
    let args: Vec<String> = match obj_get(fields, "args") {
        None => {
            let v: Vec<String> = Vec::new();
            proof {
                assert(v.deep_view() =~= Seq::<Seq<char>>::empty());
            }
            v
        },
        Some(j) => match j {
            Json::Arr(items) => {
                match str_items(items) {
                    Result::Ok(v) => v,
                    Result::Err(m) => {
                        return Result::Err(m);
                    },
                }
            },
            _ => {
                return Result::Err(String::from_str("invalid `args`"));
            },
        },
    };
    let cwd: Option<String> = match obj_get(fields, "cwd") {
        None => None,
        Some(j) => match j {
            Json::Str(p) => {
                if trimmed(p.as_str()).as_str().is_empty() {
                    None
                } else {
                    Some(p.clone())
                }
            },
            _ => {
                return Result::Err(String::from_str("invalid `cwd`"));
            },
        },
    };
    let env: Vec<EnvVar> = match obj_get(fields, "env") {
        None => Vec::new(),
        Some(j) => match j {
            Json::Arr(items) => {
                match env_items(items) {
                    Result::Ok(v) => v,
                    Result::Err(m) => {
                        return Result::Err(m);
                    },
                }
            },
            _ => {
                return Result::Err(String::from_str("invalid `env`"));
            },
        },
    };
    Result::Ok((command, args, cwd, env))
}

/// The text elements of a JSON array, or the args failure.
fn str_items(items: &Vec<Json>) -> (r: Result<Vec<String>, String>)
    ensures
        match spec_str_items(crate::json::model_items(items@)) {
            Result::Ok(ss) => r matches Result::Ok(v) && v.deep_view() == ss,
            Result::Err(msg) => r matches Result::Err(m) && m@ == msg,
        },
{
    let ghost mitems = crate::json::model_items(items@);
    proof {
        crate::json::lemma_model_items_len(items@);
    }
    let n = items.len();
    let mut out: Vec<String> = Vec::new();
    let mut i: usize = 0;
    while i < n
        invariant
            0 <= i <= n,
            n == items@.len(),
            mitems == crate::json::model_items(items@),
            mitems.len() == n,
            forall|k: int| 0 <= k < n ==> #[trigger] mitems[k] == items@[k].model(),
            out.deep_view().len() == i,
            forall|k: int|
                0 <= k < i ==> (#[trigger] mitems[k] matches JsonV::Str(s) && out.deep_view()[k]
                    == s),
        decreases n - i,
    {
        match &items[i] {
            Json::Str(s) => {
                out.push(s.clone());
            },
            _ => {
                proof {
                    lemma_str_items_err(mitems, i as int);
                }
                return Result::Err(String::from_str("invalid `args`"));
            },
        }
        i = i + 1;
    }
    proof {
        lemma_str_items_ok(mitems, out.deep_view());
    }
    Result::Ok(out)
}

/// A non-text element makes the whole argument list invalid.
proof fn lemma_str_items_err(items: Seq<JsonV>, i: int)
    requires
        0 <= i < items.len(),
        !(items[i] matches JsonV::Str(_)),
        forall|k: int| 0 <= k < i ==> #[trigger] items[k] matches JsonV::Str(_),
    ensures
        spec_str_items(items) matches Result::Err(msg) && msg == "invalid `args`"@,
    decreases i,
{
    if i == 0 {
    } else {
        let rest = items.drop_first();
        assert forall|k: int| 0 <= k < i - 1 implies #[trigger] rest[k] matches JsonV::Str(
            _,
        ) by {
            assert(rest[k] == items[k + 1]);
        }
        assert(rest[i - 1] == items[i]);
        lemma_str_items_err(rest, i - 1);
    }
}

/// All-text elements make the argument list exactly their texts, in order.
proof fn lemma_str_items_ok(items: Seq<JsonV>, out: Seq<Seq<char>>)
    requires
        out.len() == items.len(),
        forall|k: int|
            0 <= k < items.len() ==> (#[trigger] items[k] matches JsonV::Str(s) && out[k] == s),
    ensures
        spec_str_items(items) matches Result::Ok(ss) && ss == out,
    decreases items.len(),
{
    if items.len() == 0 {
        assert(out =~= Seq::<Seq<char>>::empty());
    } else {
        let rest = items.drop_first();
        let out_rest = out.drop_first();
        assert forall|k: int|
            0 <= k < rest.len() implies #[trigger] rest[k] matches JsonV::Str(s) && out_rest[k]
            == s by {
            assert(rest[k] == items[k + 1]);
            assert(out_rest[k] == out[k + 1]);
        }
        lemma_str_items_ok(rest, out_rest);
        assert(items[0] matches JsonV::Str(s) && out[0] == s);
        let ghost s0 = items[0]->Str_0;
        assert(spec_str_items(items) matches Result::Ok(ss) && ss == seq![s0] + out_rest);
        assert(seq![s0] + out_rest =~= out);
    }
}

/// The environment entries of a JSON array, or the env failure.
fn env_items(items: &Vec<Json>) -> (r: Result<Vec<EnvVar>, String>)
    ensures
        match spec_env_items(crate::json::model_items(items@)) {
            Result::Ok(pairs) => r matches Result::Ok(v) && v@.len() == pairs.len() && forall|
                i: int,
            |
                0 <= i < pairs.len() ==> ((#[trigger] v@[i]).key@ == pairs[i].0 && v@[i].value@
                    == pairs[i].1),
            Result::Err(msg) => r matches Result::Err(m) && m@ == msg,
        },
{
    let ghost mitems = crate::json::model_items(items@);
    proof {
        crate::json::lemma_model_items_len(items@);
    }
    let n = items.len();
    let mut out: Vec<EnvVar> = Vec::new();
    let mut i: usize = 0;
    while i < n
        invariant
            0 <= i <= n,
            n == items@.len(),
            mitems == crate::json::model_items(items@),
            mitems.len() == n,
            forall|k: int| 0 <= k < n ==> #[trigger] mitems[k] == items@[k].model(),
            out@.len() == i,
            forall|k: int|
                0 <= k < i ==> (#[trigger] spec_env_head(mitems[k]) matches Some(kv) && (
                out@[k].key@ == kv.0 && out@[k].value@ == kv.1)),
        decreases n - i,
    {
        let (key, value) = match env_pair(&items[i]) {
            Some(kv) => kv,
            None => {
                proof {
                    lemma_env_items_err(mitems, i as int);
                }
                return Result::Err(String::from_str("invalid `env`"));
            },
        };
        out.push(EnvVar { key, value });
        i = i + 1;
    }
    proof {
        lemma_env_items_ok(mitems, out@.map_values(|e: EnvVar| (e.key@, e.value@)));
        assert forall|i2: int|
            0 <= i2 < mitems.len() implies ((#[trigger] out@[i2]).key@ == spec_env_items(
            mitems,
        )->Ok_0[i2].0 && out@[i2].value@ == spec_env_items(mitems)->Ok_0[i2].1) by {
            assert(out@.map_values(|e: EnvVar| (e.key@, e.value@))[i2] == (
            out@[i2].key@,
            out@[i2].value@,
            ));
        }
    }
    Result::Ok(out)
}

/// The key and value of one environment entry, if it has the right shape.
pub open spec fn spec_env_head(j: JsonV) -> Option<(Seq<char>, Seq<char>)> {
    match j {
        JsonV::Obj(fields) => match (spec_obj_get(fields, "key"@), spec_obj_get(
            fields,
            "value"@,
        )) {
            (Some(JsonV::Str(k)), Some(JsonV::Str(v))) => Some((k, v)),
            _ => None,
        },
        _ => None,
    }
}

fn env_pair(j: &Json) -> (r: Option<(String, String)>)
    ensures
        match spec_env_head(j@) {
            Some(kv) => r matches Some((k, v)) && k@ == kv.0 && v@ == kv.1,
            None => r is None,
        },
{
    let fields = match obj_fields(j) {
        Some(f) => f,
        None => {
            return None;
        },
    };
    let key = match obj_get(fields, "key") {
        Some(kj) => match kj {
            Json::Str(k) => k.clone(),
            _ => {
                return None;
            },
        },
        None => {
            return None;
        },
    };
    let value = match obj_get(fields, "value") {
        Some(vj) => match vj {
            Json::Str(v) => v.clone(),
            _ => {
                return None;
            },
        },
        None => {
            return None;
        },
    };
    Some((key, value))
}

proof fn lemma_env_items_err(items: Seq<JsonV>, i: int)
    requires
        0 <= i < items.len(),
        spec_env_head(items[i]) is None,
        forall|k: int| 0 <= k < i ==> #[trigger] spec_env_head(items[k]) is Some,
    ensures
        spec_env_items(items) matches Result::Err(msg) && msg == "invalid `env`"@,
    decreases i,
{
    if i == 0 {
    } else {
        let rest = items.drop_first();
        assert forall|k: int| 0 <= k < i - 1 implies #[trigger] spec_env_head(rest[k])
            is Some by {
            assert(rest[k] == items[k + 1]);
        }
        assert(rest[i - 1] == items[i]);
        lemma_env_items_err(rest, i - 1);
        assert(spec_env_head(items[0]) is Some);
    }
}

proof fn lemma_env_items_ok(items: Seq<JsonV>, out: Seq<(Seq<char>, Seq<char>)>)
    requires
        out.len() == items.len(),
        forall|k: int|
            0 <= k < items.len() ==> (#[trigger] spec_env_head(items[k]) matches Some(kv)
                && out[k] == kv),
    ensures
        spec_env_items(items) matches Result::Ok(pairs) && pairs == out,
    decreases items.len(),
{
    if items.len() == 0 {
        assert(out =~= Seq::<(Seq<char>, Seq<char>)>::empty());
    } else {
        let rest = items.drop_first();
        let out_rest = out.drop_first();
        assert forall|k: int|
            0 <= k < rest.len() implies #[trigger] spec_env_head(rest[k]) matches Some(kv)
            && out_rest[k] == kv by {
            assert(rest[k] == items[k + 1]);
            assert(out_rest[k] == out[k + 1]);
        }
        lemma_env_items_ok(rest, out_rest);
        assert(spec_env_head(items[0]) matches Some(kv) && out[0] == kv);
        let kv0 = spec_env_head(items[0])->Some_0;
        assert(spec_env_items(items) matches Result::Ok(pairs) && pairs == seq![kv0] + out_rest);
        assert(seq![kv0] + out_rest =~= out);
    }
}

/// The spawn output document: the command, its arguments, the working
/// directory it ran in, the exit code, and both streams lossily decoded.
pub open spec fn spec_proc_output(
    command: Seq<char>,
    args: Seq<Seq<char>>,
    cwd: Seq<char>,
    status: Option<i32>,
    stdout: Seq<u8>,
    stderr: Seq<u8>,
) -> JsonV {
    JsonV::Obj(
        seq![
            ("command"@, JsonV::Str(command)),
            ("args"@, JsonV::Arr(args.map_values(|a: Seq<char>| JsonV::Str(a)))),
            ("cwd"@, JsonV::Str(cwd)),
            (
                "status"@,
                match status {
                    Some(c) => JsonV::Int(c as i64),
                    None => JsonV::Null,
                },
            ),
            ("stdout"@, JsonV::Str(utf8_lossy_of(stdout))),
            ("stderr"@, JsonV::Str(utf8_lossy_of(stderr))),
        ],
    )
}

/// Builds the spawn output from the captured results.
pub fn proc_spawn_output(
    command: String,
    args: &Vec<String>,
    cwd: String,
    status: Option<i32>,
    stdout: &Vec<u8>,
    stderr: &Vec<u8>,
) -> (r: Json)
    ensures
        r@ == spec_proc_output(command@, args.deep_view(), cwd@, status, stdout@, stderr@),
{
    let ghost command_view = command@;
    let ghost cwd_view = cwd@;
    let n = args.len();
    let mut items: Vec<Json> = Vec::new();
    let mut i: usize = 0;
    while i < n
        invariant
            0 <= i <= n,
            n == args@.len(),
            args.deep_view().len() == n,
            forall|k: int| 0 <= k < n ==> #[trigger] args.deep_view()[k] == args@[k]@,
            items@.len() == i,
            forall|k: int|
                0 <= k < i ==> (#[trigger] items@[k])@ == JsonV::Str(args.deep_view()[k]),
        decreases n - i,
    {
        items.push(Json::Str(args[i].clone()));
        i = i + 1;
    }
    let ghost iv = items@;
    let status_json = match status {
        Some(c) => Json::Int(c as i64),
        None => Json::Null,
    };
    let mut fields: Vec<(String, Json)> = Vec::new();
    fields.push((String::from_str("command"), Json::Str(command)));
    fields.push((String::from_str("args"), Json::Arr(items)));
    fields.push((String::from_str("cwd"), Json::Str(cwd)));
    fields.push((String::from_str("status"), status_json));
    fields.push((String::from_str("stdout"), Json::Str(utf8_lossy_text(stdout))));
    fields.push((String::from_str("stderr"), Json::Str(utf8_lossy_text(stderr))));
    let ghost fv = fields@;
    let r = Json::Obj(fields);
    proof {
        crate::json::lemma_model_fields_len(fv);
        crate::json::lemma_model_items_len(iv);
        let m = model_fields(fv);
        let sm = spec_proc_output(
            command_view,
            args.deep_view(),
            cwd_view,
            status,
            stdout@,
            stderr@,
        )->Obj_0;
        assert(m[0] == (fv[0].0@, fv[0].1.model()));
        assert(m[1] == (fv[1].0@, fv[1].1.model()));
        assert(m[2] == (fv[2].0@, fv[2].1.model()));
        assert(m[3] == (fv[3].0@, fv[3].1.model()));
        assert(m[4] == (fv[4].0@, fv[4].1.model()));
        assert(m[5] == (fv[5].0@, fv[5].1.model()));
        let mapped = args.deep_view().map_values(|a: Seq<char>| JsonV::Str(a));
        assert forall|k: int| 0 <= k < iv.len() implies crate::json::model_items(iv)[k]
            == mapped[k] by {
            assert(crate::json::model_items(iv)[k] == iv[k].model());
            assert(mapped[k] == JsonV::Str(args.deep_view()[k]));
        }
        assert(crate::json::model_items(iv) =~= mapped);
        assert(fv[1].1.model() == sm[1].1);
        assert(m =~= sm);
    }
    r
}

/// An element-wise copy of a string list.
fn clone_strings(v: &Vec<String>) -> (r: Vec<String>)
    ensures
        r.deep_view() == v.deep_view(),
{
    let n = v.len();
    let mut out: Vec<String> = Vec::new();
    let mut i: usize = 0;
    while i < n
        invariant
            0 <= i <= n,
            n == v@.len(),
            v.deep_view().len() == n,
            forall|k: int| 0 <= k < n ==> #[trigger] v.deep_view()[k] == v@[k]@,
            out.deep_view().len() == i,
            forall|k: int| 0 <= k < i ==> #[trigger] out.deep_view()[k] == v.deep_view()[k],
        decreases n - i,
    {
        let ghost pre = out.deep_view();
        out.push(v[i].clone());
        proof {
            assert forall|k: int| 0 <= k < i + 1 implies #[trigger] out.deep_view()[k]
                == v.deep_view()[k] by {
                assert(out.deep_view()[k] == out@[k]@);
                if k < i {
                    assert(pre[k] == v.deep_view()[k]);
                }
            }
        }
        i = i + 1;
    }
    proof {
        assert(out.deep_view() =~= v.deep_view());
    }
    out
}

/// Why a bounded file read fails before any effect, if it does.
pub open spec fn read_file_rejection(root: Seq<char>, inp: JsonV) -> Option<Seq<char>> {
    match spec_read_file_params(inp) {
        Result::Err(msg) => Some(msg),
        Result::Ok((path, limit)) => match spec_checked_path(root, root, path) {
            PathCheck::Rejected(code, msg) => Some(msg),
            PathCheck::Accepted(p) => None,
        },
    }
}

/// Why a directory listing fails before any effect, if it does.
pub open spec fn list_dir_rejection(root: Seq<char>, inp: JsonV) -> Option<Seq<char>> {
    match spec_list_dir_params(inp) {
        Result::Err(msg) => Some(msg),
        Result::Ok(None) => None,
        Result::Ok(Some(p)) => match spec_checked_path(root, root, p) {
            PathCheck::Rejected(code, msg) => Some(msg),
            PathCheck::Accepted(q) => None,
        },
    }
}

/// Why a spawn fails before any command runs, if it does: schema first,
/// then the allow-list (so a disallowed command never reaches the OS), then
/// the working directory's sandbox check.
pub open spec fn spawn_rejection(root: Seq<char>, allow: Seq<Seq<char>>, inp: JsonV) -> Option<
    Seq<char>,
> {
    match spec_spawn_params(inp) {
        Result::Err(msg) => Some(msg),
        Result::Ok((c, args, cwd, env)) => if !crate::config::spec_proc_allowed(allow, c) {
            Some("command `"@ + c + "` is not allowed by policy"@)
        } else {
            match cwd {
                Some(p) => match spec_checked_path(root, root, p) {
                    PathCheck::Rejected(code, msg) => Some(msg),
                    PathCheck::Accepted(q) => None,
                },
                None => None,
            }
        },
    }
}

/// The resolved target and byte ceiling of an accepted bounded file read.
pub open spec fn read_file_accepted(root: Seq<char>, inp: JsonV) -> Option<(Seq<char>, u64)> {
    match spec_read_file_params(inp) {
        Result::Err(msg) => None,
        Result::Ok((path, limit)) => match spec_checked_path(root, root, path) {
            PathCheck::Rejected(code, msg) => None,
            PathCheck::Accepted(p) => Some((p, limit)),
        },
    }
}

/// The resolved target of an accepted directory listing.
pub open spec fn list_dir_accepted(root: Seq<char>, inp: JsonV) -> Option<Seq<char>> {
    match spec_list_dir_params(inp) {
        Result::Err(msg) => None,
        Result::Ok(None) => Some(root),
        Result::Ok(Some(p)) => match spec_checked_path(root, root, p) {
            PathCheck::Rejected(code, msg) => None,
            PathCheck::Accepted(q) => Some(q),
        },
    }
}

/// The command, arguments and resolved working directory of an accepted
/// spawn request.
pub open spec fn spawn_accepted(root: Seq<char>, allow: Seq<Seq<char>>, inp: JsonV) -> Option<
    (Seq<char>, Seq<Seq<char>>, Seq<char>),
> {
    match spec_spawn_params(inp) {
        Result::Err(msg) => None,
        Result::Ok((c, args, cwd, env)) => if !crate::config::spec_proc_allowed(allow, c) {
            None
        } else {
            match cwd {
                Some(p) => match spec_checked_path(root, root, p) {
                    PathCheck::Rejected(code, msg) => None,
                    PathCheck::Accepted(q) => Some((c, args, q)),
                },
                None => Some((c, args, root)),
            }
        },
    }
}

/// A failure message in the shape the operating-system boundary produces
/// for operation `op`: the op-prefixed text `io_error` builds.
pub open spec fn spec_io_failure_text(op: Seq<char>, m: Seq<char>) -> bool {
    exists|t: Seq<char>| m == #[trigger] (op + " failed: "@ + t)
}

/// The failure message a full resource table produces.
pub open spec fn spec_table_full_text(m: Seq<char>) -> bool {
    m == "too many open capability handles"@
}

/// Everything a finished bounded file read promises: a pre-effect rejection
/// pins the failure message exactly; a success is the read output for the
/// accepted target, ceiling, and whatever bytes the filesystem returned;
/// and an accepted request can fail only in a shape the host's own layers
/// produce, never with a validation message.
pub open spec fn fs_read_file_post(root: Seq<char>, inp: JsonV, r: Result<Json, String>) -> bool {
    &&& match read_file_rejection(root, inp) {
        Some(msg) => r matches Result::Err(m) && m@ == msg,
        None => true,
    }
    &&& match read_file_accepted(root, inp) {
        Some((tgt, lim)) => (r matches Result::Ok(v) ==> exists|bytes: Seq<u8>|
            v@ == spec_fs_read_output(tgt, lim, bytes)) && (r matches Result::Err(m) ==> (
        spec_table_full_text(m@) || spec_io_failure_text("fs.open-file"@, m@)
            || spec_io_failure_text("fs.file.read"@, m@))),
        None => true,
    }
}

/// Everything a finished directory listing promises, like the file read's.
pub open spec fn fs_list_dir_post(root: Seq<char>, inp: JsonV, r: Result<Json, String>) -> bool {
    &&& match list_dir_rejection(root, inp) {
        Some(msg) => r matches Result::Err(m) && m@ == msg,
        None => true,
    }
    &&& match list_dir_accepted(root, inp) {
        Some(tgt) => (r matches Result::Ok(v) ==> exists|entries: Seq<DirEntry>|
            v@ == spec_list_output(tgt, entries)) && (r matches Result::Err(m) ==> (
        spec_table_full_text(m@) || spec_io_failure_text("fs.open-dir"@, m@) || m@
            == "path is not a directory"@ || spec_io_failure_text("fs.list-dir"@, m@))),
        None => true,
    }
}

/// Everything a finished spawn promises, like the file read's.
pub open spec fn proc_spawn_post(
    root: Seq<char>,
    allow: Seq<Seq<char>>,
    inp: JsonV,
    r: Result<Json, String>,
) -> bool {
    &&& match spawn_rejection(root, allow, inp) {
        Some(msg) => r matches Result::Err(m) && m@ == msg,
        None => true,
    }
    &&& match spawn_accepted(root, allow, inp) {
        Some((c, cargs, cw)) => (r matches Result::Ok(v) ==> exists|
            st: Option<i32>,
            so: Seq<u8>,
            se: Seq<u8>,
        |
            v@ == spec_proc_output(c, cargs, cw, st, so, se)) && (r matches Result::Err(m) ==> (
        spec_table_full_text(m@) || spec_io_failure_text("proc.spawn"@, m@))),
        None => true,
    }
}

/// Whether a capability name belongs to the browser family this executor
/// can route to a live backend.
pub open spec fn is_browser_cap(cap: Seq<char>) -> bool {
    ||| cap == "browser.open_session"@
    ||| cap == "browser.session.goto"@
    ||| cap == "browser.session.describe_page"@
    ||| cap == "browser.session.find"@
    ||| cap == "browser.element.click"@
    ||| cap == "browser.element.type_text"@
    ||| cap == "browser.element.inner_text"@
    ||| cap == "browser.session.screenshot"@
}

/// What one report must look like, given the run configuration, the
/// capability name and the parsed input: a parse failure or a pre-effect
/// rejection pins the report exactly; otherwise the outcome depends on the
/// outside world and only the capability name is pinned.
pub open spec fn spec_report_outcome(
    root: Seq<char>,
    allow: Seq<Seq<char>>,
    cap: Seq<char>,
    inp: Option<JsonV>,
    rep: ActionReport,
) -> bool {
    match inp {
        None => !rep.success && (rep.error matches Some(m) && m@ == "capability `"@ + cap
            + "` input is not valid JSON"@),
        Some(i) => if cap == "fs.list_dir"@ {
            match list_dir_rejection(root, i) {
                Some(msg) => !rep.success && (rep.error matches Some(m) && m@ == msg),
                None => rep.success ==> match list_dir_accepted(root, i) {
                    Some(tgt) => exists|entries: Seq<DirEntry>|
                        rep.output@ == spec_list_output(tgt, entries),
                    None => true,
                },
            }
        } else if cap == "fs.read_file"@ {
            match read_file_rejection(root, i) {
                Some(msg) => !rep.success && (rep.error matches Some(m) && m@ == msg),
                None => rep.success ==> match read_file_accepted(root, i) {
                    Some((tgt, lim)) => exists|bytes: Seq<u8>|
                        rep.output@ == spec_fs_read_output(tgt, lim, bytes),
                    None => true,
                },
            }
        } else if cap == "proc.spawn"@ {
            match spawn_rejection(root, allow, i) {
                Some(msg) => !rep.success && (rep.error matches Some(m) && m@ == msg),
                None => rep.success ==> match spawn_accepted(root, allow, i) {
                    Some((c, cargs, cw)) => exists|st: Option<i32>, so: Seq<u8>, se: Seq<u8>|
                        rep.output@ == spec_proc_output(c, cargs, cw, st, so, se),
                    None => true,
                },
            }
        } else if is_browser_cap(cap) {
            true
        } else {
            !rep.success && (rep.error matches Some(m) && m@ == "unsupported capability `"@ + cap
                + "`"@)
        },
    }
}

/// The action execution layer: dispatches each requested action by its
/// capability name, isolating every failure to its own report.
pub struct ActionExecutor<B> {
    pub state: HostState<B>,
    pub browser_sessions: Vec<String>,
    pub browser_elements: Vec<String>,
}

impl<B: HostBackend> ActionExecutor<B> {
    /// The executor's invariant is its host state's.
    pub open spec fn wf(self) -> bool {
        self.state.wf()
    }

    /// A fresh executor for one guest instantiation.
    pub fn new(config: HostConfig, backend: B) -> (r: ActionExecutor<B>)
        ensures
            r.wf(),
            r.state.config == config,
            r.browser_sessions@.len() == 0,
            r.browser_elements@.len() == 0,
    {
        ActionExecutor {
            state: HostState::new(config, backend),
            browser_sessions: Vec::new(),
            browser_elements: Vec::new(),
        }
    }

    /// Evaluates a whole batch, one report per action, in request order;
    /// one action's failure never touches its siblings.
    pub fn execute(&mut self, actions: &Vec<PlannedAction>) -> (r: Vec<ActionReport>)
        requires
            old(self).wf(),
        ensures
            final(self).wf(),
            final(self).state.config == old(self).state.config,
            final(self).state.resources.contents() == old(self).state.resources.contents(),
            r@.len() == actions@.len(),
            forall|i: int|
                0 <= i < actions@.len() ==> (#[trigger] r@[i]).capability@
                    == actions@[i].capability@,
            forall|i: int|
                0 <= i < actions@.len() ==> spec_report_outcome(
                    old(self).state.config.workspace_root@,
                    old(self).state.config.allowed_proc_commands.deep_view(),
                    actions@[i].capability@,
                    crate::json::json_of((#[trigger] actions@[i]).input@),
                    r@[i],
                ),
    {
        let n = actions.len();
        let mut reports: Vec<ActionReport> = Vec::new();
        let mut i: usize = 0;
        while i < n
            invariant
                0 <= i <= n,
                n == actions@.len(),
                self.wf(),
                self.state.config == old(self).state.config,
                self.state.resources.contents() == old(self).state.resources.contents(),
                reports@.len() == i,
                forall|k: int|
                    0 <= k < i ==> (#[trigger] reports@[k]).capability@
                        == actions@[k].capability@,
                forall|k: int|
                    0 <= k < i ==> spec_report_outcome(
                        old(self).state.config.workspace_root@,
                        old(self).state.config.allowed_proc_commands.deep_view(),
                        actions@[k].capability@,
                        crate::json::json_of((#[trigger] actions@[k]).input@),
                        reports@[k],
                    ),
            decreases n - i,
        {
            let report = self.execute_action(&actions[i]);
            reports.push(report);
            i = i + 1;
        }
        reports
    }

    /// Evaluates one action: any failure becomes that action's report.
    pub fn execute_action(&mut self, action: &PlannedAction) -> (r: ActionReport)
        requires
            old(self).wf(),
        ensures
            final(self).wf(),
            final(self).state.config == old(self).state.config,
            final(self).state.resources.contents() == old(self).state.resources.contents(),
            r.capability@ == action.capability@,
            spec_report_outcome(
                old(self).state.config.workspace_root@,
                old(self).state.config.allowed_proc_commands.deep_view(),
                action.capability@,
                crate::json::json_of(action.input@),
                r,
            ),
    {
        let capability = action.capability.clone();
        match self.execute_action_inner(action) {
            Result::Ok(value) => ActionReport::succeeded(capability, value),
            Result::Err(message) => ActionReport::failed(capability, message),
        }
    }

    /// Parses the opaque input and dispatches by capability name.
    fn execute_action_inner(&mut self, action: &PlannedAction) -> (r: Result<Json, String>)
        requires
            old(self).wf(),
        ensures
            final(self).wf(),
            final(self).state.config == old(self).state.config,
            final(self).state.resources.contents() == old(self).state.resources.contents(),
            match crate::json::json_of(action.input@) {
                None => r matches Result::Err(m) && m@ == "capability `"@ + action.capability@
                    + "` input is not valid JSON"@,
                Some(inp) => {
                    let root = old(self).state.config.workspace_root@;
                    let allow = old(self).state.config.allowed_proc_commands.deep_view();
                    let cap = action.capability@;
                    if cap == "fs.list_dir"@ {
                        fs_list_dir_post(root, inp, r)
                    } else if cap == "fs.read_file"@ {
                        fs_read_file_post(root, inp, r)
                    } else if cap == "proc.spawn"@ {
                        proc_spawn_post(root, allow, inp, r)
                    } else if is_browser_cap(cap) {
                        true
                    } else {
                        r matches Result::Err(m) && m@ == "unsupported capability `"@ + cap
                            + "`"@
                    }
                },
            },
    {
        let input = match parse_json(action.input.as_str()) {
            Some(v) => v,
            None => {
                let msg = String::from_str("capability `").concat(
                    action.capability.as_str(),
                ).concat("` input is not valid JSON");
                return Result::Err(msg);
            },
        };
        let cap = action.capability.as_str();
        if str_eq(cap, "fs.list_dir") {
            self.fs_list_dir(&input)
        } else if str_eq(cap, "fs.read_file") {
            self.fs_read_file(&input)
        } else if str_eq(cap, "proc.spawn") {
            self.proc_spawn(&input)
        } else if str_eq(cap, "browser.open_session") {
            self.browser_open_session(&input)
        } else if str_eq(cap, "browser.session.goto") {
            self.browser_session_goto(&input)
        } else if str_eq(cap, "browser.session.describe_page") {
            self.browser_session_describe(&input)
        } else if str_eq(cap, "browser.session.find") {
            self.browser_session_find(&input)
        } else if str_eq(cap, "browser.element.click") {
            self.browser_element_click(&input)
        } else if str_eq(cap, "browser.element.type_text") {
            self.browser_element_type(&input)
        } else if str_eq(cap, "browser.element.inner_text") {
            self.browser_element_inner_text(&input)
        } else if str_eq(cap, "browser.session.screenshot") {
            self.browser_session_screenshot(&input)
        } else {
            let msg = String::from_str("unsupported capability `").concat(cap).concat("`");
            Result::Err(msg)
        }
    }

    /// Lists a sandboxed directory (the workspace root when no path, or a
    /// blank one, is given).
    #[verifier::rlimit(100)]
    #[verifier::spinoff_prover]
    fn fs_list_dir(&mut self, input: &Json) -> (r: Result<Json, String>)
        requires
            old(self).wf(),
        ensures
            final(self).wf(),
            final(self).state.config == old(self).state.config,
            final(self).state.resources.contents() == old(self).state.resources.contents(),
            fs_list_dir_post(old(self).state.config.workspace_root@, input@, r),
    {
        let ghost c0 = self.state.resources.contents();
        let params = match list_dir_params(input) {
            Result::Ok(p) => p,
            Result::Err(m) => {
                return Result::Err(m);
            },
        };
        let root = self.state.config.workspace_root.clone();
        let rel = match params {
            Some(p) => {
                match crate::provider::checked_path(root.as_str(), root.as_str(), p.as_str()) {
                    Result::Ok(_) => (),
                    Result::Err(e) => {
                        return Result::Err(e.message);
                    },
                }
                Some(p)
            },
            None => None,
        };
        let ws = match self.state.open_workspace() {
            Result::Ok(h) => h,
            Result::Err(e) => {
                return Result::Err(e.message);
            },
        };
        let ghost c1 = self.state.resources.contents();
        proof {
            assert(!c0.contains_key(ws));
            crate::table::lemma_insert_delete_round_trip(
                c0,
                ws,
                self.state.resources.entry_of(ws),
            );
            assert(self.state.resources.contents()[ws] == self.state.resources.entry_of(ws));
            assert(self.state.spec_dir_base(ws) == Some(
                old(self).state.config.workspace_root@,
            ));
        }
        let (target, target_path) = match rel {
            Some(p) => {
                match self.state.open_dir(ws, p) {
                    Result::Ok(dh) => {
                        proof {
                            assert(!c1.contains_key(dh));
                            crate::table::lemma_insert_delete_round_trip(
                                c1,
                                dh,
                                self.state.resources.entry_of(dh),
                            );
                            assert(self.state.resources.contents().contains_key(ws));
                            assert(self.state.resources.valid(ws));
                        }
                        let dp = match self.state.dir_path(dh) {
                            Result::Ok(dp) => {
                                proof {
                                    assert(dp@ == list_dir_accepted(
                                        old(self).state.config.workspace_root@,
                                        input@,
                                    )->Some_0);
                                }
                                dp
                            },
                            Result::Err(e) => {
                                self.state.close(dh);
                                self.state.close(ws);
                                proof {
                                    assert(self.state.resources.contents() =~= c0);
                                }
                                return Result::Err(e.message);
                            },
                        };
                        (Some(dh), dp)
                    },
                    Result::Err(e) => {
                        self.state.close(ws);
                        proof {
                            assert(self.state.resources.contents() =~= c0);
                        }
                        return Result::Err(e.message);
                    },
                }
            },
            None => (None, root),
        };
        let entries = match target {
            Some(dh) => {
                let es = self.state.list_dir(dh);
                self.state.close(dh);
                es
            },
            None => self.state.list_dir(ws),
        };
        self.state.close(ws);
        proof {
            assert(self.state.resources.contents() =~= c0);
        }
        match entries {
            Result::Ok(es) => {
                let ghost es_view = es@;
                let ghost tgt = list_dir_accepted(
                    old(self).state.config.workspace_root@,
                    input@,
                )->Some_0;
                let ghost tgt_view = target_path@;
                let output = fs_list_output(target_path, &es);
                proof {
                    assert(tgt_view == tgt);
                    assert(exists|entries: Seq<DirEntry>|
                        output@ == spec_list_output(tgt, entries)) by {
                        assert(output@ == spec_list_output(tgt, es_view));
                    }
                }
                Result::Ok(output)
            },
            Result::Err(e) => Result::Err(e.message),
        }
    }

    /// Reads a bounded number of bytes from a sandboxed file.
    /// The validated, sandbox-checked target of a bounded file read.
    fn read_file_target(root: &String, input: &Json) -> (r: Result<(String, u64), String>)
        ensures
            match read_file_rejection(root@, input@) {
                Some(msg) => r matches Result::Err(m) && m@ == msg,
                None => r matches Result::Ok((t, l)) && read_file_accepted(root@, input@)
                    == Some((t@, l)),
            },
    {
        let (path, limit) = match read_file_params(input) {
            Result::Ok(p) => p,
            Result::Err(m) => {
                return Result::Err(m);
            },
        };
        match crate::provider::checked_path(root.as_str(), root.as_str(), path.as_str()) {
            Result::Ok(t) => Result::Ok((t, limit)),
            Result::Err(e) => Result::Err(e.message),
        }
    }

    #[verifier::rlimit(100)]
    #[verifier::spinoff_prover]
    fn fs_read_file(&mut self, input: &Json) -> (r: Result<Json, String>)
        requires
            old(self).wf(),
        ensures
            final(self).wf(),
            final(self).state.config == old(self).state.config,
            final(self).state.resources.contents() == old(self).state.resources.contents(),
            fs_read_file_post(old(self).state.config.workspace_root@, input@, r),
    {
        let ghost c0 = self.state.resources.contents();
        let root = self.state.config.workspace_root.clone();
        let (target, limit) = match Self::read_file_target(&root, input) {
            Result::Ok(tl) => tl,
            Result::Err(m) => {
                return Result::Err(m);
            },
        };
        let ws = match self.state.open_workspace() {
            Result::Ok(h) => h,
            Result::Err(e) => {
                return Result::Err(e.message);
            },
        };
        let ghost c1 = self.state.resources.contents();
        proof {
            assert(!c0.contains_key(ws));
            crate::table::lemma_insert_delete_round_trip(
                c0,
                ws,
                self.state.resources.entry_of(ws),
            );
            assert(self.state.resources.contents()[ws] == self.state.resources.entry_of(ws));
            assert(self.state.spec_dir_base(ws) == Some(
                old(self).state.config.workspace_root@,
            ));
        }
        let options = FileOpenOptions {
            read: true,
            write: false,
            append: false,
            create: false,
            truncate: false,
        };
        let rel = match read_file_params(input) {
            Result::Ok((p, l)) => p,
            Result::Err(m) => {
                self.state.close(ws);
                proof {
                    assert(self.state.resources.contents() =~= c0);
                }
                return Result::Err(m);
            },
        };
        let fh = match self.state.open_file(ws, rel, options) {
            Result::Ok(h) => h,
            Result::Err(e) => {
                self.state.close(ws);
                proof {
                    assert(self.state.resources.contents() =~= c0);
                }
                return Result::Err(e.message);
            },
        };
        proof {
            assert(!c1.contains_key(fh));
            crate::table::lemma_insert_delete_round_trip(
                c1,
                fh,
                self.state.resources.entry_of(fh),
            );
            assert(self.state.resources.contents().contains_key(ws));
            assert(self.state.resources.valid(ws));
        }
        let bound = if limit == u64::MAX {
            u64::MAX
        } else {
            limit + 1
        };
        let bytes = match self.state.read(fh, bound) {
            Result::Ok(b) => b,
            Result::Err(e) => {
                self.state.close(fh);
                self.state.close(ws);
                proof {
                    assert(self.state.resources.contents() =~= c0);
                }
                return Result::Err(e.message);
            },
        };
        self.state.close(fh);
        self.state.close(ws);
        proof {
            assert(self.state.resources.contents() =~= c0);
        }
        let ghost bytes_view = bytes@;
        let ghost tgt = read_file_accepted(old(self).state.config.workspace_root@, input@)
            ->Some_0.0;
        let output = fs_read_output(target, limit, bytes);
        proof {
            assert(target@ == tgt);
            assert(exists|b: Seq<u8>| output@ == spec_fs_read_output(tgt, limit, b)) by {
                assert(output@ == spec_fs_read_output(tgt, limit, bytes_view));
            }
        }
        Result::Ok(output)
    }

    /// Runs an allow-listed command to completion in the sandbox.
    #[verifier::rlimit(100)]
    #[verifier::spinoff_prover]
    fn proc_spawn(&mut self, input: &Json) -> (r: Result<Json, String>)
        requires
            old(self).wf(),
        ensures
            final(self).wf(),
            final(self).state.config == old(self).state.config,
            final(self).state.resources.contents() == old(self).state.resources.contents(),
            proc_spawn_post(
                old(self).state.config.workspace_root@,
                old(self).state.config.allowed_proc_commands.deep_view(),
                input@,
                r,
            ),
    {
        let ghost c0 = self.state.resources.contents();
        let (command, args, cwd, env) = match spawn_params(input) {
            Result::Ok(p) => p,
            Result::Err(m) => {
                return Result::Err(m);
            },
        };
        if !self.state.config.is_proc_allowed(command.as_str()) {
            let msg = String::from_str("command `").concat(command.as_str()).concat(
                "` is not allowed by policy",
            );
            return Result::Err(msg);
        }
        let root = self.state.config.workspace_root.clone();
        let cwd_abs = match &cwd {
            Some(p) => {
                match crate::provider::checked_path(root.as_str(), root.as_str(), p.as_str()) {
                    Result::Ok(t) => t,
                    Result::Err(e) => {
                        return Result::Err(e.message);
                    },
                }
            },
            None => root,
        };
        let argv = clone_strings(&args);
        let options = SpawnOptions {
            argv,
            working_dir: cwd,
            env,
            timeout_ms: None,
            stdin: StdioMode::Null,
            stdout: StdioMode::Pipe,
            stderr: StdioMode::Pipe,
        };
        let h = match self.state.spawn(command.clone(), options) {
            Result::Ok(h) => h,
            Result::Err(e) => {
                return Result::Err(e.message);
            },
        };
        proof {
            assert(!c0.contains_key(h));
        }
        let out = match self.state.read_stdout(h, u32::MAX) {
            Result::Ok(sr) => sr,
            Result::Err(e) => {
                self.state.close(h);
                proof {
                    assert(self.state.resources.contents() =~= c0);
                }
                return Result::Err(e.message);
            },
        };
        let err_stream = match self.state.read_stderr(h, u32::MAX) {
            Result::Ok(sr) => sr,
            Result::Err(e) => {
                self.state.close(h);
                proof {
                    assert(self.state.resources.contents() =~= c0);
                }
                return Result::Err(e.message);
            },
        };
        let status = match self.state.wait(h, None) {
            Result::Ok(st) => st,
            Result::Err(e) => {
                self.state.close(h);
                proof {
                    assert(self.state.resources.contents() =~= c0);
                }
                return Result::Err(e.message);
            },
        };
        proof {
            assert(self.state.resources.contents() =~= c0.insert(
                h,
                self.state.resources.entry_of(h),
            ));
            crate::table::lemma_insert_delete_round_trip(
                c0,
                h,
                self.state.resources.entry_of(h),
            );
        }
        self.state.close(h);
        proof {
            assert(self.state.resources.contents() =~= c0);
        }
        let ghost so_view = out.data@;
        let ghost se_view = err_stream.data@;
        let output = proc_spawn_output(
            command,
            &args,
            cwd_abs,
            status.code,
            &out.data,
            &err_stream.data,
        );
        proof {
            let acc = spawn_accepted(
                old(self).state.config.workspace_root@,
                old(self).state.config.allowed_proc_commands.deep_view(),
                input@,
            );
            assert(command@ == acc->Some_0.0);
            assert(args.deep_view() == acc->Some_0.1);
            assert(cwd_abs@ == acc->Some_0.2);
            assert(exists|st: Option<i32>, so: Seq<u8>, se: Seq<u8>|
                output@ == spec_proc_output(acc->Some_0.0, acc->Some_0.1, acc->Some_0.2, st, so,
                se)) by {
                assert(output@ == spec_proc_output(
                    acc->Some_0.0,
                    acc->Some_0.1,
                    acc->Some_0.2,
                    status.code,
                    so_view,
                    se_view,
                ));
            }
        }
        Result::Ok(output)
    }
}

/// A one-field JSON object.
pub fn obj1(k: &str, v: Json) -> (r: Json)
    ensures
        r@ == JsonV::Obj(seq![(k@, v@)]),
{
    let ghost vv = v@;
    let mut fields: Vec<(String, Json)> = Vec::new();
    fields.push((String::from_str(k), v));
    let ghost fv = fields@;
    let r = Json::Obj(fields);
    proof {
        crate::json::lemma_model_fields_len(fv);
        assert(model_fields(fv)[0] == (fv[0].0@, fv[0].1.model()));
        assert(model_fields(fv) =~= seq![(k@, vv)]);
    }
    r
}

/// A two-field JSON object.
pub fn obj2(k1: &str, v1: Json, k2: &str, v2: Json) -> (r: Json)
    ensures
        r@ == JsonV::Obj(seq![(k1@, v1@), (k2@, v2@)]),
{
    let ghost vv1 = v1@;
    let ghost vv2 = v2@;
    let mut fields: Vec<(String, Json)> = Vec::new();
    fields.push((String::from_str(k1), v1));
    fields.push((String::from_str(k2), v2));
    let ghost fv = fields@;
    let r = Json::Obj(fields);
    proof {
        crate::json::lemma_model_fields_len(fv);
        assert(model_fields(fv)[0] == (fv[0].0@, fv[0].1.model()));
        assert(model_fields(fv)[1] == (fv[1].0@, fv[1].1.model()));
        assert(model_fields(fv) =~= seq![(k1@, vv1), (k2@, vv2)]);
    }
    r
}

/// A three-field JSON object.
pub fn obj3(k1: &str, v1: Json, k2: &str, v2: Json, k3: &str, v3: Json) -> (r: Json)
    ensures
        r@ == JsonV::Obj(seq![(k1@, v1@), (k2@, v2@), (k3@, v3@)]),
{
    let ghost vv1 = v1@;
    let ghost vv2 = v2@;
    let ghost vv3 = v3@;
    let mut fields: Vec<(String, Json)> = Vec::new();
    fields.push((String::from_str(k1), v1));
    fields.push((String::from_str(k2), v2));
    fields.push((String::from_str(k3), v3));
    let ghost fv = fields@;
    let r = Json::Obj(fields);
    proof {
        crate::json::lemma_model_fields_len(fv);
        assert(model_fields(fv)[0] == (fv[0].0@, fv[0].1.model()));
        assert(model_fields(fv)[1] == (fv[1].0@, fv[1].1.model()));
        assert(model_fields(fv)[2] == (fv[2].0@, fv[2].1.model()));
        assert(model_fields(fv) =~= seq![(k1@, vv1), (k2@, vv2), (k3@, vv3)]);
    }
    r
}

/// A four-field JSON object.
pub fn obj4(k1: &str, v1: Json, k2: &str, v2: Json, k3: &str, v3: Json, k4: &str, v4: Json) -> (r:
    Json)
    ensures
        r@ == JsonV::Obj(seq![(k1@, v1@), (k2@, v2@), (k3@, v3@), (k4@, v4@)]),
{
    let ghost vv1 = v1@;
    let ghost vv2 = v2@;
    let ghost vv3 = v3@;
    let ghost vv4 = v4@;
    let mut fields: Vec<(String, Json)> = Vec::new();
    fields.push((String::from_str(k1), v1));
    fields.push((String::from_str(k2), v2));
    fields.push((String::from_str(k3), v3));
    fields.push((String::from_str(k4), v4));
    let ghost fv = fields@;
    let r = Json::Obj(fields);
    proof {
        crate::json::lemma_model_fields_len(fv);
        assert(model_fields(fv)[0] == (fv[0].0@, fv[0].1.model()));
        assert(model_fields(fv)[1] == (fv[1].0@, fv[1].1.model()));
        assert(model_fields(fv)[2] == (fv[2].0@, fv[2].1.model()));
        assert(model_fields(fv)[3] == (fv[3].0@, fv[3].1.model()));
        assert(model_fields(fv) =~= seq![(k1@, vv1), (k2@, vv2), (k3@, vv3), (k4@, vv4)]);
    }
    r
}

/// A trimmed, non-blank alias, as every browser entity name must be.
pub fn normalized_alias(input: &str) -> (r: Result<String, String>)
    ensures
        blank(input@) ==> (r matches Result::Err(m) && m@ == "alias must be non-empty"@),
        !blank(input@) ==> (r matches Result::Ok(s) && s@ == crate::text::trim_of(input@)),
{
    let t = trimmed(input);
    if t.as_str().is_empty() {
        Result::Err(String::from_str("alias must be non-empty"))
    } else {
        Result::Ok(t)
    }
}

/// Lowers a selector to what the WebDriver wire accepts: CSS and XPath go
/// through unchanged, and a text selector becomes an XPath comparing the
/// normalized element text against the value as a JSON string literal.
pub fn selector_to_by(kind: crate::backend::SelectorKind, value: String) -> (r: (
    crate::backend::SelectorKind,
    String,
))
    ensures
        kind != crate::backend::SelectorKind::Text ==> r == (kind, value),
        kind == crate::backend::SelectorKind::Text ==> r.0
            == crate::backend::SelectorKind::XPath && r.1@ == "//*[normalize-space(text()) = "@
            + crate::json::json_text_of(JsonV::Str(value@)) + "]"@,
{
    match kind {
        crate::backend::SelectorKind::Text => {
            let ghost value_view = value@;
            let literal = crate::json::json_to_text(&Json::Str(value));
            let xpath = String::from_str("//*[normalize-space(text()) = ").concat(
                literal.as_str(),
            ).concat("]");
            (crate::backend::SelectorKind::XPath, xpath)
        },
        _ => (kind, value),
    }
}

impl<B: HostBackend> ActionExecutor<B> {
    /// The configured browser settings, or the disabled-capability failure.
    fn browser_settings(&self) -> (r: Result<crate::config::BrowserSettings, String>)
        ensures
            match self.state.config.browser {
                Some(b) => r matches Result::Ok(s) && s.webdriver_url@ == b.webdriver_url@,
                None => r matches Result::Err(m) && m@
                    == "browser capability is disabled in host configuration"@,
            },
    {
        match &self.state.config.browser {
            Some(b) => {
                let default_profile = match &b.default_profile {
                    Some(p) => Some(p.clone()),
                    None => None,
                };
                Result::Ok(
                    crate::config::BrowserSettings {
                        webdriver_url: b.webdriver_url.clone(),
                        default_profile,
                    },
                )
            },
            None => Result::Err(
                String::from_str("browser capability is disabled in host configuration"),
            ),
        }
    }

    /// A required text field of a browser request.
    fn req_str(&self, fields: &Vec<(String, Json)>, key: &str, missing: &str) -> (r: Result<
        String,
        String,
    >)
        ensures
            match spec_obj_get(model_fields(fields@), key@) {
                Some(JsonV::Str(s)) => r matches Result::Ok(v) && v@ == s,
                _ => r matches Result::Err(m) && m@ == missing@,
            },
    {
        match obj_get(fields, key) {
            Some(j) => match j {
                Json::Str(s) => Result::Ok(s.clone()),
                _ => Result::Err(String::from_str(missing)),
            },
            None => Result::Err(String::from_str(missing)),
        }
    }

    /// Opens a named browser session through the configured backend.
    fn browser_open_session(&mut self, input: &Json) -> (r: Result<Json, String>)
        requires
            old(self).wf(),
        ensures
            final(self).wf(),
            final(self).state.config == old(self).state.config,
            old(self).state.config.browser is None ==> (r matches Result::Err(m) && m@
                == "browser capability is disabled in host configuration"@),
            final(self).state.resources == old(self).state.resources,
            final(self).browser_elements@ == old(self).browser_elements@,
            r is Err ==> final(self).browser_sessions@ == old(self).browser_sessions@,
            r is Ok ==> final(self).browser_sessions@.len() == old(self).browser_sessions@.len()
                + 1 && final(self).browser_sessions@.subrange(
                0,
                old(self).browser_sessions@.len() as int,
            ) == old(self).browser_sessions@,
    {
        let settings = match self.browser_settings() {
            Result::Ok(s) => s,
            Result::Err(m) => {
                return Result::Err(m);
            },
        };
        let fields = match obj_fields(input) {
            Some(f) => f,
            None => {
                return Result::Err(String::from_str("capability input must be a JSON object"));
            },
        };
        let alias_raw = match self.req_str(fields, "alias", "browser.open_session requires `alias`")
             {
            Result::Ok(s) => s,
            Result::Err(m) => {
                return Result::Err(m);
            },
        };
        let alias = match normalized_alias(alias_raw.as_str()) {
            Result::Ok(a) => a,
            Result::Err(m) => {
                return Result::Err(m);
            },
        };
        if contains_str(&self.browser_sessions, alias.as_str()) {
            let msg = String::from_str("browser session `").concat(alias.as_str()).concat(
                "` already exists",
            );
            return Result::Err(msg);
        }
        let headless = match obj_get(fields, "headless") {
            Some(j) => match j {
                Json::Bool(b) => *b,
                _ => {
                    return Result::Err(String::from_str("invalid `headless`"));
                },
            },
            None => true,
        };
        let allow_downloads = match obj_get(fields, "allow_downloads") {
            Some(j) => match j {
                Json::Bool(b) => *b,
                _ => {
                    return Result::Err(String::from_str("invalid `allow_downloads`"));
                },
            },
            None => false,
        };
        let profile = match obj_get(fields, "profile") {
            Some(j) => match j {
                Json::Str(p) => Some(p.clone()),
                _ => {
                    return Result::Err(String::from_str("invalid `profile`"));
                },
            },
            None => match &settings.default_profile {
                Some(p) => Some(p.clone()),
                None => None,
            },
        };
        match self.state.backend.browser_open_session(
            &settings,
            alias.as_str(),
            headless,
            &profile,
            allow_downloads,
        ) {
            Result::Ok(()) => (),
            Result::Err(m) => {
                return Result::Err(m);
            },
        }
        let ghost pre_sessions = self.browser_sessions@;
        self.browser_sessions.push(alias.clone());
        proof {
            assert(self.browser_sessions@.subrange(0, pre_sessions.len() as int)
                =~= pre_sessions);
        }
        Result::Ok(obj1("session", Json::Str(alias)))
    }

    /// A known session's normalized alias, or the failure naming it.
    fn known_session(&self, fields: &Vec<(String, Json)>) -> (r: Result<String, String>)
        ensures
            r matches Result::Ok(a) ==> crate::config::seq_contains(
                self.browser_sessions.deep_view(),
                a@,
            ),
    {
        let raw = match self.req_str(fields, "session", "browser request requires `session`") {
            Result::Ok(s) => s,
            Result::Err(m) => {
                return Result::Err(m);
            },
        };
        let alias = match normalized_alias(raw.as_str()) {
            Result::Ok(a) => a,
            Result::Err(m) => {
                return Result::Err(m);
            },
        };
        if !contains_str(&self.browser_sessions, alias.as_str()) {
            let msg = String::from_str("unknown browser session `").concat(alias.as_str()).concat(
                "`",
            );
            return Result::Err(msg);
        }
        Result::Ok(alias)
    }

    /// A known element's normalized alias, or the failure naming it.
    fn known_element(&self, fields: &Vec<(String, Json)>) -> (r: Result<String, String>)
        ensures
            r matches Result::Ok(a) ==> crate::config::seq_contains(
                self.browser_elements.deep_view(),
                a@,
            ),
    {
        let raw = match self.req_str(fields, "element", "browser request requires `element`") {
            Result::Ok(s) => s,
            Result::Err(m) => {
                return Result::Err(m);
            },
        };
        let alias = match normalized_alias(raw.as_str()) {
            Result::Ok(a) => a,
            Result::Err(m) => {
                return Result::Err(m);
            },
        };
        if !contains_str(&self.browser_elements, alias.as_str()) {
            let msg = String::from_str("unknown browser element `").concat(alias.as_str()).concat(
                "`",
            );
            return Result::Err(msg);
        }
        Result::Ok(alias)
    }

    /// An optional timeout in milliseconds.
    fn opt_timeout(&self, fields: &Vec<(String, Json)>, default_ms: u64) -> (r: Result<
        u64,
        String,
    >)
        ensures
            match spec_obj_get(model_fields(fields@), "timeout_ms"@) {
                None => r matches Result::Ok(t) && t == default_ms,
                Some(JsonV::Int(n)) => if n >= 0 {
                    r matches Result::Ok(t) && t == n as u64
                } else {
                    r matches Result::Err(m) && m@ == "invalid `timeout_ms`"@
                },
                Some(_) => r matches Result::Err(m) && m@ == "invalid `timeout_ms`"@,
            },
    {
        match obj_get(fields, "timeout_ms") {
            Some(j) => match j {
                Json::Int(n) => {
                    if *n >= 0 {
                        Result::Ok(*n as u64)
                    } else {
                        Result::Err(String::from_str("invalid `timeout_ms`"))
                    }
                },
                _ => Result::Err(String::from_str("invalid `timeout_ms`")),
            },
            None => Result::Ok(default_ms),
        }
    }

    /// Navigates a session to an address.
    fn browser_session_goto(&mut self, input: &Json) -> (r: Result<Json, String>)
        requires
            old(self).wf(),
        ensures
            final(self).wf(),
            final(self).state.config == old(self).state.config,
            final(self).state.resources == old(self).state.resources,
            final(self).browser_sessions@ == old(self).browser_sessions@,
            final(self).browser_elements@ == old(self).browser_elements@,
    {
        let fields = match obj_fields(input) {
            Some(f) => f,
            None => {
                return Result::Err(String::from_str("capability input must be a JSON object"));
            },
        };
        let alias = match self.known_session(fields) {
            Result::Ok(a) => a,
            Result::Err(m) => {
                return Result::Err(m);
            },
        };
        let url = match self.req_str(fields, "url", "browser.session.goto requires `url`") {
            Result::Ok(u) => u,
            Result::Err(m) => {
                return Result::Err(m);
            },
        };
        let timeout = match self.opt_timeout(fields, 5000) {
            Result::Ok(t) => t,
            Result::Err(m) => {
                return Result::Err(m);
            },
        };
        let capped = if timeout > 30000 {
            30000
        } else {
            timeout
        };
        let current = match self.state.backend.browser_goto(alias.as_str(), url.as_str(), capped) {
            Result::Ok(u) => u,
            Result::Err(m) => {
                return Result::Err(m);
            },
        };
        Result::Ok(obj2("session", Json::Str(alias), "url", Json::Str(current)))
    }

    /// Describes a session's current page.
    fn browser_session_describe(&mut self, input: &Json) -> (r: Result<Json, String>)
        requires
            old(self).wf(),
        ensures
            final(self).wf(),
            final(self).state.config == old(self).state.config,
            final(self).state.resources == old(self).state.resources,
            final(self).browser_sessions@ == old(self).browser_sessions@,
            final(self).browser_elements@ == old(self).browser_elements@,
    {
        let fields = match obj_fields(input) {
            Some(f) => f,
            None => {
                return Result::Err(String::from_str("capability input must be a JSON object"));
            },
        };
        let alias = match self.known_session(fields) {
            Result::Ok(a) => a,
            Result::Err(m) => {
                return Result::Err(m);
            },
        };
        let include_html = match obj_get(fields, "include_html") {
            Some(j) => match j {
                Json::Bool(b) => *b,
                _ => {
                    return Result::Err(String::from_str("invalid `include_html`"));
                },
            },
            None => false,
        };
        let page = match self.state.backend.browser_describe(alias.as_str(), include_html) {
            Result::Ok(p) => p,
            Result::Err(m) => {
                return Result::Err(m);
            },
        };
        let title = match page.title {
            Some(t) => Json::Str(t),
            None => Json::Null,
        };
        let html = match page.html {
            Some(h) => Json::Str(h),
            None => Json::Null,
        };
        Result::Ok(
            obj4(
                "session",
                Json::Str(alias),
                "url",
                Json::Str(page.url),
                "title",
                title,
                "html",
                html,
            ),
        )
    }

    /// Finds an element in a session's page and names it with an alias.
    fn browser_session_find(&mut self, input: &Json) -> (r: Result<Json, String>)
        requires
            old(self).wf(),
        ensures
            final(self).wf(),
            final(self).state.config == old(self).state.config,
            final(self).state.resources == old(self).state.resources,
            final(self).browser_sessions@ == old(self).browser_sessions@,
            r is Err ==> final(self).browser_elements@ == old(self).browser_elements@,
            r is Ok ==> final(self).browser_elements@.len() == old(self).browser_elements@.len()
                + 1 && final(self).browser_elements@.subrange(
                0,
                old(self).browser_elements@.len() as int,
            ) == old(self).browser_elements@,
    {
        let fields = match obj_fields(input) {
            Some(f) => f,
            None => {
                return Result::Err(String::from_str("capability input must be a JSON object"));
            },
        };
        let session = match self.known_session(fields) {
            Result::Ok(a) => a,
            Result::Err(m) => {
                return Result::Err(m);
            },
        };
        let alias_raw = match self.req_str(
            fields,
            "alias",
            "browser.session.find requires `alias`",
        ) {
            Result::Ok(a) => a,
            Result::Err(m) => {
                return Result::Err(m);
            },
        };
        let element = match normalized_alias(alias_raw.as_str()) {
            Result::Ok(a) => a,
            Result::Err(m) => {
                return Result::Err(m);
            },
        };
        if contains_str(&self.browser_elements, element.as_str()) {
            let msg = String::from_str("browser element `").concat(element.as_str()).concat(
                "` already exists",
            );
            return Result::Err(msg);
        }
        let (kind, value) = match obj_get(fields, "selector") {
            Some(sel) => match obj_fields(sel) {
                Some(sf) => {
                    let kind_name = match self.req_str(sf, "kind", "invalid `selector`") {
                        Result::Ok(k) => k,
                        Result::Err(m) => {
                            return Result::Err(m);
                        },
                    };
                    let value = match self.req_str(sf, "value", "invalid `selector`") {
                        Result::Ok(v) => v,
                        Result::Err(m) => {
                            return Result::Err(m);
                        },
                    };
                    let kind = if str_eq(kind_name.as_str(), "css") {
                        crate::backend::SelectorKind::Css
                    } else if str_eq(kind_name.as_str(), "xpath") {
                        crate::backend::SelectorKind::XPath
                    } else if str_eq(kind_name.as_str(), "text") {
                        crate::backend::SelectorKind::Text
                    } else {
                        return Result::Err(String::from_str("invalid `selector`"));
                    };
                    (kind, value)
                },
                None => {
                    return Result::Err(String::from_str("invalid `selector`"));
                },
            },
            None => {
                return Result::Err(String::from_str("browser.session.find requires `selector`"));
            },
        };
        let timeout = match self.opt_timeout(fields, 5000) {
            Result::Ok(t) => t,
            Result::Err(m) => {
                return Result::Err(m);
            },
        };
        let (by_kind, by_value) = selector_to_by(kind, value);
        match self.state.backend.browser_find(
            session.as_str(),
            by_kind,
            by_value.as_str(),
            timeout,
            element.as_str(),
        ) {
            Result::Ok(()) => (),
            Result::Err(m) => {
                return Result::Err(m);
            },
        }
        let ghost pre_elements = self.browser_elements@;
        self.browser_elements.push(element.clone());
        proof {
            assert(self.browser_elements@.subrange(0, pre_elements.len() as int)
                =~= pre_elements);
        }
        Result::Ok(obj2("session", Json::Str(session), "element", Json::Str(element)))
    }

    /// Clicks a found element.
    fn browser_element_click(&mut self, input: &Json) -> (r: Result<Json, String>)
        requires
            old(self).wf(),
        ensures
            final(self).wf(),
            final(self).state.config == old(self).state.config,
            final(self).state.resources == old(self).state.resources,
            final(self).browser_sessions@ == old(self).browser_sessions@,
            final(self).browser_elements@ == old(self).browser_elements@,
    {
        let fields = match obj_fields(input) {
            Some(f) => f,
            None => {
                return Result::Err(String::from_str("capability input must be a JSON object"));
            },
        };
        let element = match self.known_element(fields) {
            Result::Ok(a) => a,
            Result::Err(m) => {
                return Result::Err(m);
            },
        };
        match self.state.backend.browser_click(element.as_str()) {
            Result::Ok(()) => Result::Ok(obj1("element", Json::Str(element))),
            Result::Err(m) => Result::Err(m),
        }
    }

    /// Types text into a found element, optionally submitting it.
    fn browser_element_type(&mut self, input: &Json) -> (r: Result<Json, String>)
        requires
            old(self).wf(),
        ensures
            final(self).wf(),
            final(self).state.config == old(self).state.config,
            final(self).state.resources == old(self).state.resources,
            final(self).browser_sessions@ == old(self).browser_sessions@,
            final(self).browser_elements@ == old(self).browser_elements@,
    {
        let fields = match obj_fields(input) {
            Some(f) => f,
            None => {
                return Result::Err(String::from_str("capability input must be a JSON object"));
            },
        };
        let element = match self.known_element(fields) {
            Result::Ok(a) => a,
            Result::Err(m) => {
                return Result::Err(m);
            },
        };
        let text = match obj_get(fields, "text") {
            Some(j) => match j {
                Json::Str(t) => t.clone(),
                _ => {
                    return Result::Err(String::from_str("invalid `text`"));
                },
            },
            None => String::new(),
        };
        let submit = match obj_get(fields, "submit") {
            Some(j) => match j {
                Json::Bool(b) => *b,
                _ => {
                    return Result::Err(String::from_str("invalid `submit`"));
                },
            },
            None => false,
        };
        match self.state.backend.browser_type_text(element.as_str(), text.as_str(), submit) {
            Result::Ok(()) => Result::Ok(obj1("element", Json::Str(element))),
            Result::Err(m) => Result::Err(m),
        }
    }

    /// The visible text of a found element.
    fn browser_element_inner_text(&mut self, input: &Json) -> (r: Result<Json, String>)
        requires
            old(self).wf(),
        ensures
            final(self).wf(),
            final(self).state.config == old(self).state.config,
            final(self).state.resources == old(self).state.resources,
            final(self).browser_sessions@ == old(self).browser_sessions@,
            final(self).browser_elements@ == old(self).browser_elements@,
    {
        let fields = match obj_fields(input) {
            Some(f) => f,
            None => {
                return Result::Err(String::from_str("capability input must be a JSON object"));
            },
        };
        let element = match self.known_element(fields) {
            Result::Ok(a) => a,
            Result::Err(m) => {
                return Result::Err(m);
            },
        };
        match self.state.backend.browser_inner_text(element.as_str()) {
            Result::Ok(text) => Result::Ok(
                obj2("element", Json::Str(element), "text", Json::Str(text)),
            ),
            Result::Err(m) => Result::Err(m),
        }
    }

    /// A screenshot of a session's page, base64-encoded.
    fn browser_session_screenshot(&mut self, input: &Json) -> (r: Result<Json, String>)
        requires
            old(self).wf(),
        ensures
            final(self).wf(),
            final(self).state.config == old(self).state.config,
            final(self).state.resources == old(self).state.resources,
            final(self).browser_sessions@ == old(self).browser_sessions@,
            final(self).browser_elements@ == old(self).browser_elements@,
    {
        let fields = match obj_fields(input) {
            Some(f) => f,
            None => {
                return Result::Err(String::from_str("capability input must be a JSON object"));
            },
        };
        let alias = match self.known_session(fields) {
            Result::Ok(a) => a,
            Result::Err(m) => {
                return Result::Err(m);
            },
        };
        let kind = match obj_get(fields, "kind") {
            Some(j) => match j {
                Json::Str(k) => {
                    if str_eq(k.as_str(), "png") || str_eq(k.as_str(), "jpeg") {
                        k.clone()
                    } else {
                        return Result::Err(String::from_str("invalid `kind`"));
                    }
                },
                _ => {
                    return Result::Err(String::from_str("invalid `kind`"));
                },
            },
            None => String::from_str("png"),
        };
        let raw = match self.state.backend.browser_screenshot(alias.as_str()) {
            Result::Ok(b) => b,
            Result::Err(m) => {
                return Result::Err(m);
            },
        };
        let encoded = crate::text::base64_encode(raw.as_slice());
        Result::Ok(
            obj3(
                "session",
                Json::Str(alias),
                "kind",
                Json::Str(kind),
                "data_base64",
                Json::Str(encoded),
            ),
        )
    }

    /// Tears down every browser session and forgets all aliases, as the end
    /// of one guest instantiation must.
    pub fn close_browser_sessions(&mut self)
        requires
            old(self).wf(),
        ensures
            final(self).wf(),
            final(self).state.config == old(self).state.config,
            final(self).browser_sessions@.len() == 0,
            final(self).browser_elements@.len() == 0,
    {
        self.state.backend.browser_close_all();
        self.browser_sessions.clear();
        self.browser_elements.clear();
    }
}

} // verus!
