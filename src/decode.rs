//! From a TOML tree to a [`Manifest`]: required fields, types and defaults.
use vstd::prelude::*;
use vstd::string::StringExecFns;
use crate::document::{Node, parse_toml, toml_parse};
use crate::error::ManifestError;
use crate::manifest::{
    default_duration, zero_duration, ActionButton, ActionButtonView, AudioFile, AudioFileView,
    Manifest, ManifestView, Number,
};

verus! {

/// The value under `key` in a table's entries.
pub open spec fn lookup(entries: Seq<(String, Node)>, key: Seq<char>) -> Option<Node>
    decreases entries.len(),
{
    if entries.len() == 0 {
        None
    } else if entries[0].0@ == key {
        Some(entries[0].1)
    } else {
        lookup(entries.drop_first(), key)
    }
}

pub open spec fn text_of(n: Node) -> Option<Seq<char>> {
    match n {
        Node::Text(s) => Some(s@),
        _ => None,
    }
}

/// Integers and floats both read as numbers.
pub open spec fn number_of(n: Node) -> Option<Number> {
    match n {
        Node::Integer(i) => Some(Number::Integer(i)),
        Node::Float(bits) => Some(Number::Float(bits)),
        _ => None,
    }
}

/// A length is an integer that fits in 32 unsigned bits.
pub open spec fn length_of(n: Node) -> Option<u32> {
    match n {
        Node::Integer(i) => if 0 <= i <= u32::MAX {
            Some(i as u32)
        } else {
            None
        },
        _ => None,
    }
}

/// A text field that must be present.
pub open spec fn required_text(entries: Seq<(String, Node)>, key: Seq<char>) -> Option<Seq<char>> {
    match lookup(entries, key) {
        Some(n) => text_of(n),
        None => None,
    }
}

/// A text field that reads as empty when absent.
pub open spec fn optional_text(entries: Seq<(String, Node)>, key: Seq<char>) -> Option<Seq<char>> {
    match lookup(entries, key) {
        Some(n) => text_of(n),
        None => Some(Seq::empty()),
    }
}

/// A number field that must be present.
pub open spec fn required_number(entries: Seq<(String, Node)>, key: Seq<char>) -> Option<Number> {
    match lookup(entries, key) {
        Some(n) => number_of(n),
        None => None,
    }
}

/// A number field that may be left out (`Some(None)`).
pub open spec fn optional_number(entries: Seq<(String, Node)>, key: Seq<char>) -> Option<
    Option<Number>,
> {
    match lookup(entries, key) {
        Some(n) => match number_of(n) {
            Some(x) => Some(Some(x)),
            None => None,
        },
        None => Some(None),
    }
}

/// An action button: `name` and `volume` required, `duration` zero when absent.
pub open spec fn action_of(n: Node) -> Option<ActionButtonView> {
    match n {
        Node::Table(entries) => {
            let es = entries@;
            let name = required_text(es, "name"@);
            let volume = required_number(es, "volume"@);
            let duration = match lookup(es, "duration"@) {
                Some(d) => number_of(d),
                None => Some(zero_duration()),
            };
            if name is Some && volume is Some && duration is Some {
                Some(
                    ActionButtonView {
                        name: name->0,
                        volume: volume->0,
                        duration: duration->0,
                    },
                )
            } else {
                None
            }
        },
        _ => None,
    }
}

/// A list of action buttons, each of which must read.
pub open spec fn actions_of(n: Node) -> Option<Seq<ActionButtonView>> {
    match n {
        Node::List(xs) => if forall|i: int| 0 <= i < xs@.len() ==> (#[trigger] action_of(xs@[i])) is Some {
            Some(Seq::new(xs@.len(), |i: int| action_of(xs@[i])->0))
        } else {
            None
        },
        _ => None,
    }
}

/// A clip: `path` required; `name`, `directions` empty, `length` zero and
/// `actions` empty when absent; the playback numbers left unset when absent.
pub open spec fn item_of(n: Node) -> Option<AudioFileView> {
    match n {
        Node::Table(entries) => {
            let es = entries@;
            let name = optional_text(es, "name"@);
            let directions = optional_text(es, "directions"@);
            let path = required_text(es, "path"@);
            let length = match lookup(es, "length"@) {
                Some(l) => length_of(l),
                None => Some(0u32),
            };
            let volume = optional_number(es, "volume"@);
            let start_at = optional_number(es, "start_at"@);
            let stop_at = optional_number(es, "stop_at"@);
            let fade_in = optional_number(es, "fade_in"@);
            let fade_out = optional_number(es, "fade_out"@);
            let actions = match lookup(es, "actions"@) {
                Some(a) => actions_of(a),
                None => Some(Seq::empty()),
            };
            if name is Some && directions is Some && path is Some && length is Some
                && volume is Some && start_at is Some && stop_at is Some && fade_in is Some
                && fade_out is Some && actions is Some {
                Some(
                    AudioFileView {
                        name: name->0,
                        directions: directions->0,
                        path: path->0,
                        length: length->0,
                        volume: volume->0,
                        start_at: start_at->0,
                        stop_at: stop_at->0,
                        fade_in: fade_in->0,
                        fade_out: fade_out->0,
                        actions: actions->0,
                    },
                )
            } else {
                None
            }
        },
        _ => None,
    }
}

/// A manifest: a table whose `items` is a list of clips, each of which must
/// read; the clips keep their order.
pub open spec fn manifest_of(doc: Node) -> Option<ManifestView> {
    match doc {
        Node::Table(entries) => match lookup(entries@, "items"@) {
            Some(Node::List(xs)) => if forall|i: int|
                0 <= i < xs@.len() ==> (#[trigger] item_of(xs@[i])) is Some {
                Some(ManifestView { items: Seq::new(xs@.len(), |i: int| item_of(xs@[i])->0) })
            } else {
                None
            },
            _ => None,
        },
        _ => None,
    }
}

/// The manifest that `text` describes, if it describes one.
pub open spec fn decoded(text: Seq<char>) -> Option<ManifestView> {
    match toml_parse(text) {
        Ok(tree) => manifest_of(tree),
        Err(_) => None,
    }
}

/// An action button that states no `duration` decodes with a duration of
/// zero.
pub proof fn lemma_duration_defaults_to_zero(n: Node)
    requires
        n matches Node::Table(entries) && lookup(entries@, "duration"@) is None,
        action_of(n) is Some,
    ensures
        action_of(n)->0.duration == zero_duration(),
{
}

/// A clip table without `path` does not decode, and neither does any
/// manifest that holds one: decoding fails before any path is resolved.
pub proof fn lemma_pathless_item_fails(doc: Node, i: int)
    requires
        doc matches Node::Table(entries) && (lookup(entries@, "items"@) matches Some(
            Node::List(xs),
        ) && (0 <= i < xs@.len() && (xs@[i] matches Node::Table(fields) && lookup(
            fields@,
            "path"@,
        ) is None))),
    ensures
        manifest_of(doc) is None,
{
    if let Node::Table(entries) = doc {
        if let Some(Node::List(xs)) = lookup(entries@, "items"@) {
            assert(item_of(xs@[i]) is None);
        }
    }
}

/// The message for a field that is absent though required.
pub open spec fn missing_message(key: Seq<char>) -> Seq<char> {
    "missing field `"@ + key + "`"@
}

/// The message for a field of the wrong type.
pub open spec fn mistyped_message(key: Seq<char>) -> Seq<char> {
    "invalid type for field `"@ + key + "`"@
}

/// The message for a field that does not read: absent or of the wrong type.
pub open spec fn field_message(entries: Seq<(String, Node)>, key: Seq<char>) -> Seq<char> {
    if lookup(entries, key) is None {
        missing_message(key)
    } else {
        mistyped_message(key)
    }
}

/// Why an action button does not read: its first field that fails.
pub open spec fn action_error(n: Node) -> Seq<char> {
    match n {
        Node::Table(entries) => {
            let es = entries@;
            if required_text(es, "name"@) is None {
                field_message(es, "name"@)
            } else if required_number(es, "volume"@) is None {
                field_message(es, "volume"@)
            } else {
                field_message(es, "duration"@)
            }
        },
        _ => "an action must be a table"@,
    }
}

/// Why the first action button of `xs` that does not read fails.
pub open spec fn first_action_error(xs: Seq<Node>) -> Seq<char>
    decreases xs.len(),
{
    if xs.len() == 0 {
        Seq::empty()
    } else if action_of(xs[0]) is None {
        action_error(xs[0])
    } else {
        first_action_error(xs.drop_first())
    }
}

/// Why a list of action buttons does not read.
pub open spec fn actions_error(n: Node) -> Seq<char> {
    match n {
        Node::List(xs) => first_action_error(xs@),
        _ => "`actions` must be a list"@,
    }
}

/// Why a clip does not read: its first field that fails, in the order
/// the fields are declared.
pub open spec fn item_error(n: Node) -> Seq<char> {
    match n {
        Node::Table(entries) => {
            let es = entries@;
            if optional_text(es, "name"@) is None {
                field_message(es, "name"@)
            } else if optional_text(es, "directions"@) is None {
                field_message(es, "directions"@)
            } else if required_text(es, "path"@) is None {
                field_message(es, "path"@)
            } else if lookup(es, "length"@) matches Some(l) && length_of(l) is None {
                field_message(es, "length"@)
            } else if optional_number(es, "volume"@) is None {
                field_message(es, "volume"@)
            } else if optional_number(es, "start_at"@) is None {
                field_message(es, "start_at"@)
            } else if optional_number(es, "stop_at"@) is None {
                field_message(es, "stop_at"@)
            } else if optional_number(es, "fade_in"@) is None {
                field_message(es, "fade_in"@)
            } else if optional_number(es, "fade_out"@) is None {
                field_message(es, "fade_out"@)
            } else {
                actions_error(lookup(es, "actions"@)->0)
            }
        },
        _ => "an item must be a table"@,
    }
}

/// Why the first clip of `xs` that does not read fails.
pub open spec fn first_item_error(xs: Seq<Node>) -> Seq<char>
    decreases xs.len(),
{
    if xs.len() == 0 {
        Seq::empty()
    } else if item_of(xs[0]) is None {
        item_error(xs[0])
    } else {
        first_item_error(xs.drop_first())
    }
}

/// Why a tree is not a manifest.
pub open spec fn manifest_error(doc: Node) -> Seq<char> {
    match doc {
        Node::Table(entries) => match lookup(entries@, "items"@) {
            Some(Node::List(xs)) => first_item_error(xs@),
            Some(_) => mistyped_message("items"@),
            None => missing_message("items"@),
        },
        _ => "a manifest must be a table"@,
    }
}

/// The cause that decoding `text` fails with: the parser's diagnostic, or
/// why its tree is not a manifest.
pub open spec fn decode_message(text: Seq<char>) -> Seq<char> {
    match toml_parse(text) {
        Ok(tree) => manifest_error(tree),
        Err(diagnostic) => diagnostic,
    }
}

fn find<'a>(entries: &'a Vec<(String, Node)>, key: &str) -> (r: Option<&'a Node>)
    ensures
        match r {
            Some(n) => lookup(entries@, key@) == Some(*n),
            None => lookup(entries@, key@) is None,
        },
{
    let k = String::from_str(key);
    let mut i: usize = 0;
    proof {
        assert(entries@.subrange(0, entries@.len() as int) =~= entries@);
    }
    while i < entries.len()
        invariant
            i <= entries@.len(),
            k@ == key@,
            lookup(entries@, key@) == lookup(entries@.subrange(i as int, entries@.len() as int), key@),
        decreases entries.len() - i,
    {
        proof {
            let rest = entries@.subrange(i as int, entries@.len() as int);
            assert(rest.drop_first() =~= entries@.subrange(i + 1, entries@.len() as int));
        }
        if entries[i].0 == k {
            return Some(&entries[i].1);
        }
        i = i + 1;
    }
    None
}

fn missing(key: &str) -> (r: String)
    ensures
        r@ == missing_message(key@),
{
    String::from_str("missing field `").concat(key).concat("`")
}

fn mistyped(key: &str) -> (r: String)
    ensures
        r@ == mistyped_message(key@),
{
    String::from_str("invalid type for field `").concat(key).concat("`")
}

fn read_text(entries: &Vec<(String, Node)>, key: &str, required: bool) -> (r: Result<String, String>)
    ensures
        match r {
            Ok(s) => Some(s@) == if required {
                required_text(entries@, key@)
            } else {
                optional_text(entries@, key@)
            },
            Err(e) => (if required {
                required_text(entries@, key@)
            } else {
                optional_text(entries@, key@)
            }) is None && e@ == field_message(entries@, key@),
        },
{
    match find(entries, key) {
        Some(Node::Text(s)) => Ok(s.clone()),
        Some(_) => Err(mistyped(key)),
        None => if required {
            Err(missing(key))
        } else {
            Ok(String::new())
        },
    }
}

fn number_from(n: &Node) -> (r: Option<Number>)
    ensures
        r == number_of(*n),
{
    match n {
        Node::Integer(i) => Some(Number::Integer(*i)),
        Node::Float(bits) => Some(Number::Float(*bits)),
        _ => None,
    }
}

fn read_optional_number(entries: &Vec<(String, Node)>, key: &str) -> (r: Result<
    Option<Number>,
    String,
>)
    ensures
        match r {
            Ok(x) => optional_number(entries@, key@) == Some(x),
            Err(e) => optional_number(entries@, key@) is None && e@ == field_message(
                entries@,
                key@,
            ),
        },
{
    match find(entries, key) {
        Some(n) => match number_from(n) {
            Some(x) => Ok(Some(x)),
            None => Err(mistyped(key)),
        },
        None => Ok(None),
    }
}

fn read_action(n: &Node) -> (r: Result<ActionButton, String>)
    ensures
        match r {
            Ok(a) => action_of(*n) == Some(a@),
            Err(e) => action_of(*n) is None && e@ == action_error(*n),
        },
{
    match n {
        Node::Table(entries) => {
            let name = match read_text(entries, "name", true) {
                Ok(s) => s,
                Err(e) => return Err(e),
            };
            let volume = match find(entries, "volume") {
                Some(v) => match number_from(v) {
                    Some(x) => x,
                    None => return Err(mistyped("volume")),
                },
                None => return Err(missing("volume")),
            };
            let duration = match find(entries, "duration") {
                Some(d) => match number_from(d) {
                    Some(x) => x,
                    None => return Err(mistyped("duration")),
                },
                None => default_duration(),
            };
            Ok(ActionButton { name, volume, duration })
        },
        _ => Err(String::from_str("an action must be a table")),
    }
}

fn read_actions(n: &Node) -> (r: Result<Vec<ActionButton>, String>)
    ensures
        match r {
            Ok(v) => actions_of(*n) == Some(v@.map_values(|a: ActionButton| a@)),
            Err(e) => actions_of(*n) is None && e@ == actions_error(*n),
        },
{
    match n {
        Node::List(xs) => {
            let mut out: Vec<ActionButton> = Vec::new();
            let mut i: usize = 0;
            proof {
                assert(xs@.subrange(0, xs@.len() as int) =~= xs@);
            }
            while i < xs.len()
                invariant
                    *n == Node::List(*xs),
                    i <= xs@.len(),
                    out@.len() == i,
                    forall|j: int| 0 <= j < i ==> #[trigger] action_of(xs@[j]) == Some(out@[j]@),
                    first_action_error(xs@) == first_action_error(
                        xs@.subrange(i as int, xs@.len() as int),
                    ),
                decreases xs.len() - i,
            {
                proof {
                    let rest = xs@.subrange(i as int, xs@.len() as int);
                    assert(rest.drop_first() =~= xs@.subrange(i + 1, xs@.len() as int));
                    assert(rest[0] == xs@[i as int]);
                }
                match read_action(&xs[i]) {
                    Ok(a) => out.push(a),
                    Err(e) => {
                        assert(action_of(xs@[i as int]) is None);
                        return Err(e);
                    },
                }
                i = i + 1;
            }
            proof {
                assert(forall|j: int| 0 <= j < xs@.len() ==> (#[trigger] action_of(xs@[j])) is Some);
                assert(Seq::new(xs@.len(), |j: int| action_of(xs@[j])->0) =~= out@.map_values(
                    |a: ActionButton| a@,
                ));
            }
            Ok(out)
        },
        _ => Err(String::from_str("`actions` must be a list")),
    }
}

fn read_item(n: &Node) -> (r: Result<AudioFile, String>)
    ensures
        match r {
            Ok(a) => item_of(*n) == Some(a@),
            Err(e) => item_of(*n) is None && e@ == item_error(*n),
        },
{
    match n {
        Node::Table(entries) => {
            let name = match read_text(entries, "name", false) {
                Ok(s) => s,
                Err(e) => return Err(e),
            };
            let directions = match read_text(entries, "directions", false) {
                Ok(s) => s,
                Err(e) => return Err(e),
            };
            let path = match read_text(entries, "path", true) {
                Ok(s) => s,
                Err(e) => return Err(e),
            };
            let length: u32 = match find(entries, "length") {
                Some(Node::Integer(i)) => if 0 <= *i && *i <= u32::MAX as i64 {
                    *i as u32
                } else {
                    return Err(mistyped("length"));
                },
                Some(_) => return Err(mistyped("length")),
                None => 0,
            };
            let volume = match read_optional_number(entries, "volume") {
                Ok(x) => x,
                Err(e) => return Err(e),
            };
            let start_at = match read_optional_number(entries, "start_at") {
                Ok(x) => x,
                Err(e) => return Err(e),
            };
            let stop_at = match read_optional_number(entries, "stop_at") {
                Ok(x) => x,
                Err(e) => return Err(e),
            };
            let fade_in = match read_optional_number(entries, "fade_in") {
                Ok(x) => x,
                Err(e) => return Err(e),
            };
            let fade_out = match read_optional_number(entries, "fade_out") {
                Ok(x) => x,
                Err(e) => return Err(e),
            };
            let actions = match find(entries, "actions") {
                Some(a) => match read_actions(a) {
                    Ok(v) => v,
                    Err(e) => return Err(e),
                },
                None => Vec::new(),
            };
            proof {
                assert(actions@.map_values(|a: ActionButton| a@) =~= match lookup(
                    entries@,
                    "actions"@,
                ) {
                    Some(a) => actions_of(a),
                    None => Some(Seq::empty()),
                }->0);
            }
            Ok(
                AudioFile {
                    name,
                    directions,
                    path,
                    length,
                    volume,
                    start_at,
                    stop_at,
                    fade_in,
                    fade_out,
                    actions,
                },
            )
        },
        _ => Err(String::from_str("an item must be a table")),
    }
}

/// Reads a manifest out of a TOML tree. Succeeds exactly when the tree has
/// the manifest's shape, and then returns the manifest the tree describes.
pub fn decode_tree(tree: &Node) -> (r: Result<Manifest, String>)
    ensures
        match r {
            Ok(m) => manifest_of(*tree) == Some(m@),
            Err(e) => manifest_of(*tree) is None && e@ == manifest_error(*tree),
        },
{
    let xs = match tree {
        Node::Table(entries) => match find(entries, "items") {
            Some(Node::List(xs)) => xs,
            Some(_) => return Err(mistyped("items")),
            None => return Err(missing("items")),
        },
        _ => return Err(String::from_str("a manifest must be a table")),
    };
    let mut items: Vec<AudioFile> = Vec::new();
    let mut i: usize = 0;
    proof {
        assert(xs@.subrange(0, xs@.len() as int) =~= xs@);
    }
    while i < xs.len()
        invariant
            tree matches Node::Table(entries) && lookup(entries@, "items"@) == Some(Node::List(*xs)),
            i <= xs@.len(),
            items@.len() == i,
            forall|j: int| 0 <= j < i ==> #[trigger] item_of(xs@[j]) == Some(items@[j]@),
            first_item_error(xs@) == first_item_error(xs@.subrange(i as int, xs@.len() as int)),
        decreases xs.len() - i,
    {
        proof {
            let rest = xs@.subrange(i as int, xs@.len() as int);
            assert(rest.drop_first() =~= xs@.subrange(i + 1, xs@.len() as int));
            assert(rest[0] == xs@[i as int]);
        }
        match read_item(&xs[i]) {
            Ok(a) => items.push(a),
            Err(e) => {
                assert(item_of(xs@[i as int]) is None);
                return Err(e);
            },
        }
        i = i + 1;
    }
    proof {
        assert(forall|j: int| 0 <= j < xs@.len() ==> (#[trigger] item_of(xs@[j])) is Some);
        assert(Seq::new(xs@.len(), |j: int| item_of(xs@[j])->0) =~= items@.map_values(
            |a: AudioFile| a@,
        ));
    }
    Ok(Manifest { items })
}

/// Decodes manifest text. Succeeds exactly when the text is TOML of the
/// manifest's shape, with the manifest it describes; fails with
/// [`ManifestError::Decode`] otherwise. No path is looked at.
pub fn decode_manifest(text: &str) -> (r: Result<Manifest, ManifestError>)
    ensures
        match r {
            Ok(m) => decoded(text@) == Some(m@),
            Err(e) => decoded(text@) is None && (e matches ManifestError::Decode(cause) && cause@
                == decode_message(text@)),
        },
{
    match parse_toml(text) {
        Ok(tree) => match decode_tree(&tree) {
            Ok(m) => Ok(m),
            Err(cause) => Err(ManifestError::Decode(cause)),
        },
        Err(cause) => Err(ManifestError::Decode(cause)),
    }
}

} // verus!
