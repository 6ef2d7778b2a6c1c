//! Settings that are no longer accepted.

use vstd::prelude::*;

use crate::text::{
    chars_of, decimal, has_prefix, line_views, lines, lines_of, opt_str, push_decimal, starts_with,
    trim_start, trimmed_start,
};

verus! {

/// A YAML value of the `serde_yaml` crate.
#[verifier::external_type_specification]
#[verifier::external_body]
pub struct ExYamlValue(serde_yaml::Value);

/// The YAML document that a text holds; `None` where it holds none.
pub uninterp spec fn yaml_document(text: Seq<char>) -> Option<serde_yaml::Value>;

/// The value under a string key of a YAML value; `None` where there is none, or
/// where the value is no mapping.
pub uninterp spec fn yaml_get(
    value: serde_yaml::Value,
    key: Seq<char>,
) -> Option<serde_yaml::Value>;

/// The items of a YAML value; `None` where it is no sequence.
pub uninterp spec fn yaml_items(value: serde_yaml::Value) -> Option<Seq<serde_yaml::Value>>;

/// The value behind a reference that may be missing.
pub open spec fn behind(value: Option<&serde_yaml::Value>) -> Option<serde_yaml::Value> {
    match value {
        Some(v) => Some(*v),
        None => None,
    }
}

/// The items behind a reference that may be missing.
pub open spec fn items_behind(
    items: Option<&Vec<serde_yaml::Value>>,
) -> Option<Seq<serde_yaml::Value>> {
    match items {
        Some(v) => Some(v@),
        None => None,
    }
}

/// `serde_yaml::from_str` into a `serde_yaml::Value`: the document that a text
/// holds. What is wrong with a text that is refused is left out.
#[verifier::external_body]
fn parse_document(text: &str) -> (r: Option<serde_yaml::Value>)
    ensures
        r == yaml_document(text@),
{
    serde_yaml::from_str::<serde_yaml::Value>(text).ok()
}

/// `serde_yaml::Value::get` with a string key.
#[verifier::external_body]
fn member_of<'a>(value: &'a serde_yaml::Value, key: &str) -> (r: Option<&'a serde_yaml::Value>)
    ensures
        behind(r) == yaml_get(*value, key@),
{
    value.get(key)
}

/// `serde_yaml::Value::as_sequence`.
#[verifier::external_body]
fn items_of(value: &serde_yaml::Value) -> (r: Option<&Vec<serde_yaml::Value>>)
    ensures
        items_behind(r) == yaml_items(*value),
{
    value.as_sequence()
}

/// A setting that is no longer accepted.
#[derive(Debug, Clone, Copy, PartialEq, Eq, Structural)]
pub enum RemovedSetting {
    /// `workflows[].post_success.merge`.
    PostSuccessMerge,
    /// `integrations.git.auto_merge`.
    AutoMerge,
}

/// Whether a value has one under `outer.inner`.
pub open spec fn has_nested(value: serde_yaml::Value, outer: Seq<char>, inner: Seq<char>) -> bool {
    match yaml_get(value, outer) {
        Some(v) => yaml_get(v, inner) is Some,
        None => false,
    }
}

/// Whether some item of a list has a value under `outer.inner`.
pub open spec fn some_item_has(
    items: Seq<serde_yaml::Value>,
    outer: Seq<char>,
    inner: Seq<char>,
) -> bool {
    exists|i: int| 0 <= i < items.len() && has_nested(#[trigger] items[i], outer, inner)
}

/// Whether a workflow of a document has a `post_success.merge`.
pub open spec fn merges_on_success(doc: serde_yaml::Value) -> bool {
    match yaml_get(doc, "workflows"@) {
        Some(list) => match yaml_items(list) {
            Some(items) => some_item_has(items, "post_success"@, "merge"@),
            None => false,
        },
        None => false,
    }
}

/// Whether a document has an `integrations.git.auto_merge`.
pub open spec fn merges_by_itself(doc: serde_yaml::Value) -> bool {
    match yaml_get(doc, "integrations"@) {
        Some(integrations) => has_nested(integrations, "git"@, "auto_merge"@),
        None => false,
    }
}

/// The first setting of a document that is no longer accepted.
pub open spec fn removed_setting(doc: serde_yaml::Value) -> Option<RemovedSetting> {
    if merges_on_success(doc) {
        Some(RemovedSetting::PostSuccessMerge)
    } else if merges_by_itself(doc) {
        Some(RemovedSetting::AutoMerge)
    } else {
        None
    }
}

fn nested_in(value: &serde_yaml::Value, outer: &str, inner: &str) -> (r: bool)
    ensures
        r == has_nested(*value, outer@, inner@),
{
    match member_of(value, outer) {
        Some(v) => member_of(v, inner).is_some(),
        None => false,
    }
}

fn any_item_has(items: &Vec<serde_yaml::Value>, outer: &str, inner: &str) -> (r: bool)
    ensures
        r == some_item_has(items@, outer@, inner@),
{
    let mut i: usize = 0;
    while i < items.len()
        invariant
            i <= items@.len(),
            forall|j: int| 0 <= j < i ==> !has_nested(#[trigger] items@[j], outer@, inner@),
        decreases items@.len() - i,
    {
        if nested_in(&items[i], outer, inner) {
            return true;
        }
        i += 1;
    }
    false
}

/// The first setting of a document that is no longer accepted.
pub fn find_removed_setting(doc: &serde_yaml::Value) -> (r: Option<RemovedSetting>)
    ensures
        r == removed_setting(*doc),
{
    let on_success = match member_of(doc, "workflows") {
        Some(list) => match items_of(list) {
            Some(items) => any_item_has(items, "post_success", "merge"),
            None => false,
        },
        None => false,
    };
    if on_success {
        return Some(RemovedSetting::PostSuccessMerge);
    }
    let by_itself = match member_of(doc, "integrations") {
        Some(integrations) => nested_in(integrations, "git", "auto_merge"),
        None => false,
    };
    if by_itself {
        return Some(RemovedSetting::AutoMerge);
    }
    None
}

// ---------------------------------------------------------------------
// Where it stands
// ---------------------------------------------------------------------

/// How a source is named in messages.
pub open spec fn source_name(source_path: Option<Seq<char>>) -> Seq<char> {
    match source_path {
        Some(path) => path,
        None => "<in-memory>"@,
    }
}

/// How a source is named in messages.
pub fn source_label(source_path: Option<&str>) -> (r: String)
    ensures
        r@ == source_name(opt_str(source_path)),
{
    match source_path {
        Some(path) => path.to_owned(),
        None => "<in-memory>".to_owned(),
    }
}

/// Index of the first line from `from` on whose text starts with a key.
pub open spec fn line_with_key(all: Seq<Seq<char>>, key: Seq<char>, from: int) -> Option<int>
    decreases all.len() - from,
{
    if from < 0 || from >= all.len() {
        None
    } else if starts_with(trim_start(all[from]), key) {
        Some(from)
    } else {
        line_with_key(all, key, from + 1)
    }
}

fn find_line_with_key(all: &Vec<Vec<char>>, key: &str) -> (r: Option<usize>)
    ensures
        match r {
            Some(i) => line_with_key(line_views(all@), key@, 0) == Some(i as int) && i < all@.len(),
            None => line_with_key(line_views(all@), key@, 0) is None,
        },
{
    let prefix = chars_of(key);
    let ghost views = line_views(all@);
    let mut i: usize = 0;
    while i < all.len()
        invariant
            i <= all@.len(),
            views == line_views(all@),
            prefix@ == key@,
            line_with_key(views, key@, 0) == line_with_key(views, key@, i as int),
        decreases all@.len() - i,
    {
        proof {
            assert(views[i as int] == all@[i as int]@);
        }
        if has_prefix(trimmed_start(all[i].as_slice()), prefix.as_slice()) {
            return Some(i);
        }
        i += 1;
    }
    None
}

/// The place of a removed setting: the source and, where the text has a line with
/// its key, the 1-based number of the first such line.
pub open spec fn removed_place(
    setting: RemovedSetting,
    text: Seq<char>,
    label: Seq<char>,
) -> Seq<char> {
    let all = lines(text);
    let line = match setting {
        RemovedSetting::PostSuccessMerge => if line_with_key(all, "merge:"@, 0) is Some {
            line_with_key(all, "merge:"@, 0)
        } else {
            line_with_key(all, "post_success:"@, 0)
        },
        RemovedSetting::AutoMerge => line_with_key(all, "auto_merge:"@, 0),
    };
    match line {
        Some(i) => label + ":"@ + decimal((i + 1) as nat),
        None => label,
    }
}

/// What is said about a removed setting.
pub open spec fn removed_message(
    setting: RemovedSetting,
    text: Seq<char>,
    label: Seq<char>,
) -> Seq<char> {
    match setting {
        RemovedSetting::PostSuccessMerge => "`post_success.merge` was removed in v0.5.x ("@
            + removed_place(setting, text, label)
            + "): Animus no longer performs git operations as runner automation. Express commit/push/PR/merge as command phases (a phase with a `command:` running `git`/`gh`). See docs/reference/workflow-yaml.md."@,
        RemovedSetting::AutoMerge => "`integrations.git.auto_merge` was removed in v0.5.x ("@
            + removed_place(setting, text, label)
            + "): Animus no longer merges to main autonomously. Express commit/push/PR/merge as command phases (a phase with a `command:` running `git`/`gh`). See docs/reference/workflow-yaml.md."@,
    }
}

fn removed_message_text(setting: RemovedSetting, yaml_str: &str, label: &str) -> (r: String)
    ensures
        r@ == removed_message(setting, yaml_str@, label@),
{
    let all = lines_of(chars_of(yaml_str).as_slice());
    let line = match setting {
        RemovedSetting::PostSuccessMerge => match find_line_with_key(&all, "merge:") {
            Some(i) => Some(i),
            None => find_line_with_key(&all, "post_success:"),
        },
        RemovedSetting::AutoMerge => find_line_with_key(&all, "auto_merge:"),
    };
    let mut place = label.to_owned();
    if let Some(i) = line {
        place.append(":");
        push_decimal(&mut place, i as u128 + 1);
    }
    proof {
        assert(place@ =~= removed_place(setting, yaml_str@, label@));
    }
    let mut out = String::new();
    match setting {
        RemovedSetting::PostSuccessMerge => {
            out.append("`post_success.merge` was removed in v0.5.x (");
            out.append(place.as_str());
            out.append(
                "): Animus no longer performs git operations as runner automation. Express commit/push/PR/merge as command phases (a phase with a `command:` running `git`/`gh`). See docs/reference/workflow-yaml.md.",
            );
        },
        RemovedSetting::AutoMerge => {
            out.append("`integrations.git.auto_merge` was removed in v0.5.x (");
            out.append(place.as_str());
            out.append(
                "): Animus no longer merges to main autonomously. Express commit/push/PR/merge as command phases (a phase with a `command:` running `git`/`gh`). See docs/reference/workflow-yaml.md.",
            );
        },
    }
    proof {
        assert(out@ =~= removed_message(setting, yaml_str@, label@));
    }
    out
}

/// Whether a text is refused for a setting that was found in it, with what is
/// said about the setting.
pub open spec fn is_refusal(
    r: Result<(), String>,
    found: Option<RemovedSetting>,
    yaml_str: Seq<char>,
    source_path: Option<Seq<char>>,
) -> bool {
    match found {
        Some(setting) => r is Err && (r->Err_0)@ == removed_message(
            setting,
            yaml_str,
            source_name(source_path),
        ),
        None => r is Ok,
    }
}

/// Refuses a text in which a setting was found that is no longer accepted.
pub fn reject_removed_settings(
    found: Option<RemovedSetting>,
    yaml_str: &str,
    source_path: Option<&str>,
) -> (r: Result<(), String>)
    ensures
        is_refusal(r, found, yaml_str@, opt_str(source_path)),
{
    match found {
        Some(setting) => Err(
            removed_message_text(setting, yaml_str, source_label(source_path).as_str()),
        ),
        None => Ok(()),
    }
}

/// The first setting in a text that is no longer accepted. A text that is no
/// YAML document has none: reading it reports what is wrong with it.
pub open spec fn setting_in(text: Seq<char>) -> Option<RemovedSetting> {
    match yaml_document(text) {
        Some(doc) => removed_setting(doc),
        None => None,
    }
}

/// Refuses a YAML text that holds a setting which is no longer accepted.
pub fn reject_removed_post_success_merge(yaml_str: &str, source_path: Option<&str>) -> (r: Result<
    (),
    String,
>)
    ensures
        is_refusal(r, setting_in(yaml_str@), yaml_str@, opt_str(source_path)),
{
    let found = match parse_document(yaml_str) {
        Some(doc) => find_removed_setting(&doc),
        None => None,
    };
    reject_removed_settings(found, yaml_str, source_path)
}

// ---------------------------------------------------------------------
// Laws
// ---------------------------------------------------------------------

/// Whether a value has one under a key, and that has one under a second key.
pub open spec fn has_path(value: serde_yaml::Value, first: Seq<char>, second: Seq<char>) -> bool {
    yaml_get(value, first) is Some && yaml_get(yaml_get(value, first)->0, second) is Some
}

/// A document is found to merge on success exactly if one of its workflows has
/// something under `post_success`, `merge`; and else to merge by itself exactly if
/// its integrations have something under `git`, `auto_merge`.
pub proof fn removed_settings_are_found(doc: serde_yaml::Value)
    ensures
        removed_setting(doc) == Some(RemovedSetting::PostSuccessMerge) <==> yaml_get(
            doc,
            "workflows"@,
        ) is Some && yaml_items(yaml_get(doc, "workflows"@)->0) is Some && exists|i: int|
            0 <= i < (yaml_items(yaml_get(doc, "workflows"@)->0)->0).len() && has_path(
                #[trigger] (yaml_items(yaml_get(doc, "workflows"@)->0)->0)[i],
                "post_success"@,
                "merge"@,
            ),
        yaml_get(doc, "integrations"@) is Some && has_path(
            yaml_get(doc, "integrations"@)->0,
            "git"@,
            "auto_merge"@,
        ) ==> removed_setting(doc) is Some,
        removed_setting(doc) == Some(RemovedSetting::AutoMerge) ==> yaml_get(
            doc,
            "integrations"@,
        ) is Some && has_path(yaml_get(doc, "integrations"@)->0, "git"@, "auto_merge"@),
{
    if yaml_get(doc, "workflows"@) is Some && yaml_items(yaml_get(doc, "workflows"@)->0) is Some {
        let items = yaml_items(yaml_get(doc, "workflows"@)->0)->0;
        assert forall|i: int| 0 <= i < items.len() implies has_path(
            #[trigger] items[i],
            "post_success"@,
            "merge"@,
        ) == has_nested(items[i], "post_success"@, "merge"@) by {}
        if merges_on_success(doc) {
            let i = choose|i: int|
                0 <= i < items.len() && has_nested(
                    #[trigger] items[i],
                    "post_success"@,
                    "merge"@,
                );
            assert(has_path(items[i], "post_success"@, "merge"@));
        }
    }
}

proof fn lemma_line_with_key(all: Seq<Seq<char>>, key: Seq<char>, from: int)
    requires
        0 <= from,
    ensures
        line_with_key(all, key, from) matches Some(i) ==> from <= i < all.len() && starts_with(
            trim_start(all[i]),
            key,
        ) && forall|j: int| from <= j < i ==> !starts_with(trim_start(#[trigger] all[j]), key),
        line_with_key(all, key, from) is None ==> forall|j: int|
            from <= j < all.len() ==> !starts_with(trim_start(#[trigger] all[j]), key),
    decreases all.len() - from,
{
    if from < all.len() && !starts_with(trim_start(all[from]), key) {
        lemma_line_with_key(all, key, from + 1);
    }
}

/// A text is refused exactly if a setting was found; the refusal says where: the
/// source, and the number of the first line that starts with the setting's key.
pub proof fn removed_settings_are_refused_at_their_line(
    r: Result<(), String>,
    found: Option<RemovedSetting>,
    text: Seq<char>,
    source_path: Option<Seq<char>>,
    k: int,
)
    requires
        is_refusal(r, found, text, source_path),
    ensures
        r is Ok <==> found is None,
        found == Some(RemovedSetting::AutoMerge) && 0 <= k < lines(text).len() && starts_with(
            trim_start(lines(text)[k]),
            "auto_merge:"@,
        ) && (forall|j: int|
            0 <= j < k ==> !starts_with(trim_start(#[trigger] lines(text)[j]), "auto_merge:"@))
            ==> removed_place(RemovedSetting::AutoMerge, text, source_name(source_path))
            == source_name(source_path) + ":"@ + decimal((k + 1) as nat),
        found == Some(RemovedSetting::PostSuccessMerge) && 0 <= k < lines(text).len()
            && starts_with(trim_start(lines(text)[k]), "merge:"@) && (forall|j: int|
            0 <= j < k ==> !starts_with(trim_start(#[trigger] lines(text)[j]), "merge:"@))
            ==> removed_place(RemovedSetting::PostSuccessMerge, text, source_name(source_path))
            == source_name(source_path) + ":"@ + decimal((k + 1) as nat),
        source_path matches Some(path) ==> source_name(source_path) == path,
        found matches Some(setting) ==> exists|i: int| #[trigger]
            crate::text::occurs_at(
                (r->Err_0)@,
                removed_place(setting, text, source_name(source_path)),
                i,
            ),
{
    let all = lines(text);
    lemma_line_with_key(all, "auto_merge:"@, 0);
    lemma_line_with_key(all, "merge:"@, 0);
    if 0 <= k < all.len() {
        assert(all[k] == lines(text)[k]);
    }
    if let Some(setting) = found {
        let place = removed_place(setting, text, source_name(source_path));
        let message = (r->Err_0)@;
        let n = match setting {
            RemovedSetting::PostSuccessMerge => "`post_success.merge` was removed in v0.5.x ("@.len(),
            RemovedSetting::AutoMerge => "`integrations.git.auto_merge` was removed in v0.5.x ("@.len(),
        };
        assert(message.subrange(n as int, (n + place.len()) as int) =~= place);
        assert(crate::text::occurs_at(message, place, n as int));
    }
}

} // verus!
