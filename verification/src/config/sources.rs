//! Where the files of a project's configuration are, and in which order they
//! are read.

use vstd::prelude::*;
use vstd::slice::slice_subrange;

use crate::config::parse::{is_merge, merge_yaml_into_config};
use crate::config::workflow_types::WorkflowConfig;
use crate::config::yaml_types::YAML_WORKFLOWS_DIR;
use crate::text::{chars_of, rfind, rfind_from, rfind_text, same_chars, texts};
use crate::text_map::{ascending, lemma_ascending_determined, TextMap};

verus! {

// ---------------------------------------------------------------------
// Paths
// ---------------------------------------------------------------------

/// A path below a directory. An empty directory is the current one.
pub open spec fn below(dir: Seq<char>, name: Seq<char>) -> Seq<char> {
    if dir.len() == 0 || dir.last() == '/' {
        dir + name
    } else {
        dir + "/"@ + name
    }
}

fn path_below(dir: &str, name: &str) -> (r: String)
    ensures
        r@ == below(dir@, name@),
{
    let chars = chars_of(dir);
    let mut out = dir.to_owned();
    if chars.len() > 0 && chars[chars.len() - 1] != '/' {
        out.append("/");
    }
    out.append(name);
    out
}

/// The directory of a project's workflow files.
pub fn yaml_workflows_dir(project_root: &str) -> (r: String)
    ensures
        r@ == below(below(project_root@, ".animus"@), YAML_WORKFLOWS_DIR@),
{
    path_below(path_below(project_root, ".animus").as_str(), YAML_WORKFLOWS_DIR)
}

/// The file that a project may keep its workflows in, beside the directory.
pub fn yaml_workflows_file(project_root: &str) -> (r: String)
    ensures
        r@ == below(below(project_root@, ".animus"@), "workflows.yaml"@),
{
    path_below(path_below(project_root, ".animus").as_str(), "workflows.yaml")
}

/// Whether a file name ends in `.yaml` or `.yml`, behind at least one other
/// character.
pub open spec fn is_source_name(name: Seq<char>) -> bool {
    match rfind(name, "."@) {
        Some(dot) => dot > 0 && (name.skip(dot + 1) == "yaml"@ || name.skip(dot + 1) == "yml"@),
        None => false,
    }
}

fn source_name(name: &str) -> (r: bool)
    ensures
        r == is_source_name(name@),
{
    let chars = chars_of(name);
    match rfind_text(chars.as_slice(), chars_of(".").as_slice()) {
        Some(dot) => {
            proof {
                lemma_dot_fits(name@, dot as int);
            }
            if dot == 0 {
                return false;
            }
            let extension = slice_subrange(chars.as_slice(), dot + 1, chars.len());
            proof {
                assert(extension@ =~= name@.skip(dot + 1));
            }
            same_chars(extension, chars_of("yaml").as_slice()) || same_chars(
                extension,
                chars_of("yml").as_slice(),
            )
        },
        None => false,
    }
}

proof fn lemma_rfind_from_range(s: Seq<char>, p: Seq<char>, from: int)
    ensures
        rfind_from(s, p, from) is Some ==> 0 <= rfind_from(s, p, from)->0 <= from,
    decreases from + 1,
{
    if from >= 0 {
        lemma_rfind_from_range(s, p, from - 1);
    }
}

proof fn lemma_dot_fits(name: Seq<char>, dot: int)
    requires
        rfind(name, "."@) == Some(dot),
    ensures
        0 <= dot < name.len(),
{
    reveal_strlit(".");
    lemma_rfind_from_range(name, "."@, name.len() - "."@.len());
}

/// The names out of a directory's that are read, in ascending order. A
/// directory holds each name once.
pub fn source_names(names: Vec<String>) -> (r: Vec<String>)
    ensures
        ascending(texts(r@)),
        forall|name: Seq<char>| #[trigger]
            texts(r@).contains(name) <==> texts(names@).contains(name) && is_source_name(name),
        are_sources_of(texts(names@), texts(r@)),
{
    let mut found: TextMap<bool> = TextMap::new();
    let mut i: usize = 0;
    while i < names.len()
        invariant
            i <= names@.len(),
            forall|name: Seq<char>| #[trigger]
                found@.contains_key(name) <==> texts(names@.take(i as int)).contains(name)
                    && is_source_name(name),
        decreases names@.len() - i,
    {
        proof {
            let before = texts(names@.take(i as int));
            let after = texts(names@.take(i + 1));
            assert(after =~= before.push(names@[i as int]@));
            assert forall|name: Seq<char>| after.contains(name) <==> before.contains(name) || name
                == names@[i as int]@ by {
                if before.contains(name) {
                    let j = before.index_of(name);
                    assert(after[j] == name);
                }
                if name == names@[i as int]@ {
                    assert(after[i as int] == name);
                }
            }
        }
        if source_name(names[i].as_str()) {
            found.insert(names[i].clone(), true);
        }
        i += 1;
    }
    proof {
        assert(names@.take(i as int) =~= names@);
    }
    let ghost held = found@;
    let (sorted, _flags) = found.into_parts();
    proof {
        assert forall|name: Seq<char>| #[trigger] texts(sorted@).contains(name)
            <==> held.contains_key(name) by {}
    }
    sorted
}

// ---------------------------------------------------------------------
// Several files
// ---------------------------------------------------------------------

/// The configuration of the files so far and of one more, which was itself
/// read on top of them.
pub fn add_source(merged: Option<WorkflowConfig>, parsed: WorkflowConfig) -> (r: WorkflowConfig)
    ensures
        merged is None ==> r == parsed,
        merged is Some ==> is_merge(merged->0, parsed, r),
        source_added(merged, parsed, r),
{
    match merged {
        None => parsed,
        Some(base) => merge_yaml_into_config(base, parsed),
    }
}

/// What stands before the error of a file.
pub open spec fn source_heading(label: Seq<char>, in_pack: bool) -> Seq<char> {
    if in_pack {
        "error in pack YAML file "@ + label
    } else {
        "error in YAML file "@ + label
    }
}

/// What stands before the error of a file.
pub fn source_context(label: &str, in_pack: bool) -> (r: String)
    ensures
        r@ == source_heading(label@, in_pack),
{
    let mut out = if in_pack {
        "error in pack YAML file ".to_owned()
    } else {
        "error in YAML file ".to_owned()
    };
    out.append(label);
    out
}

/// What stands before the error of an environment variable in a file.
pub fn interpolation_context(label: &str) -> (r: String)
    ensures
        r@ == "env-var interpolation failed for "@ + label@,
{
    let mut out = "env-var interpolation failed for ".to_owned();
    out.append(label);
    out
}

/// The order of the files depends on their names alone, not on the order in
/// which a directory lists them.
pub proof fn source_order_is_determined(a: Seq<Seq<char>>, b: Seq<Seq<char>>)
    requires
        ascending(a),
        ascending(b),
        forall|name: Seq<char>| #[trigger] a.contains(name) <==> b.contains(name),
    ensures
        a == b,
{
    lemma_ascending_determined(a, b);
}

/// Whether `r` are the names out of `names` that are read, in ascending order.
pub open spec fn are_sources_of(names: Seq<Seq<char>>, r: Seq<Seq<char>>) -> bool {
    &&& ascending(r)
    &&& forall|name: Seq<char>| #[trigger]
        r.contains(name) <==> names.contains(name) && is_source_name(name)
}

proof fn lemma_extension(stem: Seq<char>, extension: Seq<char>)
    requires
        forall|i: int| 0 <= i < extension.len() ==> #[trigger] extension[i] != '.',
    ensures
        rfind(stem + seq!['.'] + extension, "."@) == Some(stem.len() as int),
        (stem + seq!['.'] + extension).skip(stem.len() as int + 1) == extension,
{
    reveal_strlit(".");
    let name = stem + seq!['.'] + extension;
    let n = stem.len() as int;
    assert("."@ =~= seq!['.']);
    assert(name.subrange(n, n + 1) =~= "."@);
    assert(crate::text::occurs_at(name, "."@, n));
    assert forall|i: int| i > n implies !#[trigger] crate::text::occurs_at(name, "."@, i) by {
        if crate::text::occurs_at(name, "."@, i) {
            assert(name.subrange(i, i + 1)[0] == name[i]);
            assert(name[i] == extension[i - n - 1]);
        }
    }
    crate::text::lemma_rfind(name, "."@, name.len() - 1, n);
    assert(name.skip(n + 1) =~= extension);
}

/// A file is read exactly if its name is some other text followed by `.yaml` or
/// `.yml`.
pub proof fn yaml_files_are_read(name: Seq<char>, stem: Seq<char>)
    ensures
        stem.len() > 0 ==> is_source_name(stem + seq!['.', 'y', 'a', 'm', 'l']),
        stem.len() > 0 ==> is_source_name(stem + seq!['.', 'y', 'm', 'l']),
        is_source_name(name) ==> (exists|n: int|
            0 < n < name.len() && #[trigger] name.skip(n) == seq!['.', 'y', 'a', 'm', 'l']) || (
        exists|n: int| 0 < n < name.len() && #[trigger] name.skip(n) == seq!['.', 'y', 'm', 'l']),
{
    reveal_strlit("yaml");
    reveal_strlit("yml");
    reveal_strlit(".");
    assert("yaml"@ =~= seq!['y', 'a', 'm', 'l']);
    assert("yml"@ =~= seq!['y', 'm', 'l']);
    lemma_extension(stem, "yaml"@);
    lemma_extension(stem, "yml"@);
    assert(stem + seq!['.'] + "yaml"@ =~= stem + seq!['.', 'y', 'a', 'm', 'l']);
    assert(stem + seq!['.'] + "yml"@ =~= stem + seq!['.', 'y', 'm', 'l']);
    if is_source_name(name) {
        let dot = rfind(name, "."@)->0;
        crate::text::lemma_rfind_from(name, "."@, name.len() - 1);
        assert(name.subrange(dot, dot + 1)[0] == name[dot]);
        assert(name[dot] == '.');
        assert(name.skip(dot) =~= seq!['.'] + name.skip(dot + 1));
        if name.skip(dot + 1) == "yaml"@ {
            assert(name.skip(dot) =~= seq!['.', 'y', 'a', 'm', 'l']);
        } else {
            assert(name.skip(dot) =~= seq!['.', 'y', 'm', 'l']);
        }
    }
}

/// Every file that is to be read is read, once and in ascending order of the names;
/// no other is.
pub proof fn sources_are_read_in_order(
    names: Seq<Seq<char>>,
    r: Seq<Seq<char>>,
    name: Seq<char>,
    i: int,
    j: int,
)
    requires
        are_sources_of(names, r),
    ensures
        names.contains(name) && is_source_name(name) ==> r.contains(name),
        r.contains(name) ==> names.contains(name) && is_source_name(name),
        0 <= i < j < r.len() ==> crate::text_map::text_less(r[i], r[j]) && r[i] != r[j],
{
    if 0 <= i < j < r.len() && r[i] == r[j] {
        crate::text_map::lemma_ascending_unique(r, i, j);
    }
}

/// Whether `r` is the configuration of the files so far and of one more.
pub open spec fn source_added(
    merged: Option<WorkflowConfig>,
    parsed: WorkflowConfig,
    r: WorkflowConfig,
) -> bool {
    match merged {
        None => r == parsed,
        Some(base) => is_merge(base, parsed, r),
    }
}

/// Later files win: what the last one says under a key is what holds there, and
/// what only the earlier ones say stays.
pub proof fn later_sources_win(
    merged: Option<WorkflowConfig>,
    parsed: WorkflowConfig,
    r: WorkflowConfig,
    k: Seq<char>,
)
    requires
        source_added(merged, parsed, r),
    ensures
        merged is None ==> r == parsed,
        parsed.phase_definitions@.contains_key(k) ==> r.phase_definitions@.contains_key(k)
            && r.phase_definitions@[k] == parsed.phase_definitions@[k],
        merged matches Some(base) ==> (base.phase_definitions@.contains_key(k)
            && !parsed.phase_definitions@.contains_key(k) ==> r.phase_definitions@.contains_key(k)
            && r.phase_definitions@[k] == base.phase_definitions@[k]),
        parsed.secrets@.contains_key(k) ==> r.secrets@.contains_key(k) && r.secrets@[k]
            == parsed.secrets@[k],
        parsed.default_workflow_ref@.len() > 0 ==> r.default_workflow_ref@
            == parsed.default_workflow_ref@,
{
}

/// A path below a directory is the directory, a slash where it does not end in one,
/// and the name.
pub proof fn paths_are_joined_by_one_slash(dir: Seq<char>, name: Seq<char>)
    ensures
        dir.len() > 0 && dir.last() != '/' ==> below(dir, name) == dir + seq!['/'] + name,
        dir.len() > 0 && dir.last() == '/' ==> below(dir, name) == dir + name,
        below(Seq::empty(), name) == name,
{
    reveal_strlit("/");
    assert("/"@ =~= seq!['/']);
    assert(Seq::<char>::empty() + name =~= name);
}

} // verus!
