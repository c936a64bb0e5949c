//! Where definitions are kept, and under which names.

use crate::text::{characters, control, is_blank, is_control, joined, trim, trimmed, trimming_cuts_the_margin, without_head, without_tail, Margin, Text};
use vstd::prelude::*;

verus! {

/// Characters that some file system does not take in a name.
pub open spec fn is_reserved(c: char) -> bool {
    c == '/' || c == '\\' || c == ':' || c == '*' || c == '?' || c == '"' || c == '<' || c == '>'
        || c == '|'
}

/// What stands for a label's character in a file name.
pub open spec fn in_file_name(c: char) -> char {
    if is_reserved(c) || is_control(c) {
        '_'
    } else {
        c
    }
}

/// A label with its unsafe characters replaced, and without the white space and
/// the dots around it.
pub open spec fn cleaned(label: Text) -> Text {
    trimmed(
        trimmed(label.map_values(|c: char| in_file_name(c)), Margin::Blanks),
        Margin::Dots,
    )
}

/// The name for the file of a workspace with the given label.
pub open spec fn file_stem(label: Text) -> Text {
    if cleaned(label).len() == 0 {
        "workspace"@
    } else {
        cleaned(label)
    }
}

/// The name, without an extension, of the file that holds the definition of the
/// workspace `label`.
pub fn safe_filename(label: &str) -> (result: String)
    ensures
        result@ == file_stem(label@),
{
    let chars = characters(label);
    let mut name = String::new();
    for i in 0..chars.len()
        invariant
            chars@ == label@,
            name@ == label@.take(i as int).map_values(|c: char| in_file_name(c)),
    {
        let c = chars[i];
        let safe: char = if c == '/' || c == '\\' || c == ':' || c == '*' || c == '?' || c == '"'
            || c == '<' || c == '>' || c == '|' || control(c) {
            '_'
        } else {
            c
        };
        name.push(safe);
        assert(name@ =~= label@.take(i + 1).map_values(|c: char| in_file_name(c)));
    }
    assert(label@.take(label@.len() as int) =~= label@);
    let name = trim(trim(name.as_str(), Margin::Blanks).as_str(), Margin::Dots);
    if name.as_str().is_empty() {
        "workspace".to_owned()
    } else {
        name
    }
}

/// The name of the file that holds the definition of the workspace `label`.
pub fn definition_file(label: &str) -> (result: String)
    ensures
        result@ == file_stem(label@) + ".toml"@,
{
    joined(safe_filename(label).as_str(), ".toml")
}

/// Whether a file of the definitions' directory holds a definition: its name has
/// the extension `toml`.
pub open spec fn names_definition(file_name: Text) -> bool {
    let n = file_name.len();
    n > 5 && file_name.skip(n - 5) == ".toml"@
}

/// Whether a file of the definitions' directory holds a definition.
pub fn is_definition_file(file_name: &str) -> (result: bool)
    ensures
        result == names_definition(file_name@),
{
    proof {
        reveal_strlit(".toml");
    }
    let chars = characters(file_name);
    let n: usize = chars.len();
    if n <= 5 {
        return false;
    }
    let result = chars[n - 5] == '.' && chars[n - 4] == 't' && chars[n - 3] == 'o' && chars[n - 2]
        == 'm' && chars[n - 1] == 'l';
    proof {
        let tail = file_name@.skip(n - 5);
        assert(tail[0] == file_name@[n - 5] && tail[1] == file_name@[n - 4] && tail[2]
            == file_name@[n - 3] && tail[3] == file_name@[n - 2] && tail[4] == file_name@[n - 1]);
        assert(result ==> tail =~= ".toml"@);
    }
    result
}

/// Where something is kept.
#[derive(Debug, PartialEq, Eq)]
pub enum Place<P> {
    /// At the place that was given for it.
    Given(P),
    /// At its usual place, `path` below the home directory.
    BelowHome { home: P, path: &'static str },
}

/// Where definitions are kept below the home directory.
pub fn default_config() -> (result: &'static str)
    ensures
        result@ == ".config/pen"@,
{
    ".config/pen"
}

/// Where herdr's socket is below the home directory.
pub fn default_socket() -> (result: &'static str)
    ensures
        result@ == ".config/herdr/herdr.sock"@,
{
    ".config/herdr/herdr.sock"
}

/// Chooses between the place that was given and the usual one below the home
/// directory, which fails where no home directory is known.
pub fn choose_place<P>(given: Option<P>, home: Option<P>, path: &'static str) -> (result: Result<
    Place<P>,
    String,
>)
    ensures
        match (given, home) {
            (Some(place), _) => result == Ok::<Place<P>, String>(Place::Given(place)),
            (None, Some(home)) => result == Ok::<Place<P>, String>(Place::BelowHome { home, path }),
            (None, None) => result matches Err(message) && message@ == "HOME is not set"@,
        },
{
    match (given, home) {
        (Some(place), _) => Ok(Place::Given(place)),
        (None, Some(home)) => Ok(Place::BelowHome { home, path }),
        (None, None) => Err("HOME is not set".to_owned()),
    }
}

/// The directory of the definitions: the one that was given, or the usual one.
pub fn config_dir<P>(given: Option<P>, home: Option<P>) -> (result: Result<Place<P>, String>)
    ensures
        match (given, home) {
            (Some(place), _) => result == Ok::<Place<P>, String>(Place::Given(place)),
            (None, Some(dir)) => result matches Ok(Place::BelowHome { home, path }) && home == dir
                && path@ == ".config/pen"@,
            (None, None) => result matches Err(message) && message@ == "HOME is not set"@,
        },
{
    choose_place(given, home, default_config())
}

/// herdr's socket: the one that was given, or the usual one.
pub fn herdr_socket<P>(given: Option<P>, home: Option<P>) -> (result: Result<Place<P>, String>)
    ensures
        match (given, home) {
            (Some(place), _) => result == Ok::<Place<P>, String>(Place::Given(place)),
            (None, Some(dir)) => result matches Ok(Place::BelowHome { home, path }) && home == dir
                && path@ == ".config/herdr/herdr.sock"@,
            (None, None) => result matches Err(message) && message@ == "HOME is not set"@,
        },
{
    choose_place(given, home, default_socket())
}

proof fn without_head_is_suffix(s: Text, margin: Margin)
    ensures
        exists|n: int| 0 <= n <= s.len() && without_head(s, margin) == #[trigger] s.skip(n),
        without_head(s, margin).len() > 0 ==> !margin.has(without_head(s, margin)[0]),
    decreases s.len(),
{
    if s.len() > 0 && margin.has(s[0]) {
        without_head_is_suffix(s.drop_first(), margin);
        let rest = s.drop_first();
        let n = choose|n: int|
            0 <= n <= rest.len() && without_head(rest, margin) == #[trigger] rest.skip(n);
        assert(rest.skip(n) =~= s.skip(n + 1));
    } else {
        assert(s.skip(0) =~= s);
    }
}

proof fn without_tail_is_prefix(s: Text, margin: Margin)
    ensures
        exists|n: int| 0 <= n <= s.len() && without_tail(s, margin) == #[trigger] s.take(n),
        without_tail(s, margin).len() > 0 ==> !margin.has(without_tail(s, margin).last()),
    decreases s.len(),
{
    if s.len() > 0 && margin.has(s.last()) {
        without_tail_is_prefix(s.drop_last(), margin);
        let rest = s.drop_last();
        let n = choose|n: int|
            0 <= n <= rest.len() && without_tail(rest, margin) == #[trigger] rest.take(n);
        assert(rest.take(n) =~= s.take(n));
    } else {
        assert(s.take(s.len() as int) =~= s);
    }
}

/// What is left of a text once its margins are cut off is a run of its characters,
/// and neither begins nor ends with a character of the margin.
pub proof fn trimmed_is_middle(s: Text, margin: Margin)
    ensures
        exists|i: int, j: int| 0 <= i <= j <= s.len() && trimmed(s, margin) == s.subrange(i, j),
        trimmed(s, margin).len() > 0 ==> !margin.has(trimmed(s, margin)[0]),
        trimmed(s, margin).len() > 0 ==> !margin.has(trimmed(s, margin).last()),
{
    let rest = without_head(s, margin);
    without_head_is_suffix(s, margin);
    without_tail_is_prefix(rest, margin);
    let i = choose|n: int| 0 <= n <= s.len() && rest == #[trigger] s.skip(n);
    let n = choose|n: int|
        0 <= n <= rest.len() && without_tail(rest, margin) == #[trigger] rest.take(n);
    assert(s.skip(i).take(n) =~= s.subrange(i, i + n));
}

/// The name of a definition's file is never empty, holds no reserved and no
/// control character, and neither begins nor ends with a dot, whatever the label
/// is. So it names a file directly in the directory where definitions are kept.
pub proof fn file_stem_is_safe(label: Text)
    ensures
        file_stem(label).len() > 0,
        forall|i: int|
            0 <= i < file_stem(label).len() ==> !is_reserved(#[trigger] file_stem(label)[i])
                && !is_control(file_stem(label)[i]),
        file_stem(label)[0] != '.',
        file_stem(label).last() != '.',
{
    reveal_strlit("workspace");
    let replaced = label.map_values(|c: char| in_file_name(c));
    let inner = trimmed(replaced, Margin::Blanks);
    let stem = trimmed(inner, Margin::Dots);
    trimmed_is_middle(replaced, Margin::Blanks);
    trimmed_is_middle(inner, Margin::Dots);
    let (i, j) = choose|i: int, j: int|
        0 <= i <= j <= replaced.len() && inner == replaced.subrange(i, j);
    let (k, l) = choose|k: int, l: int| 0 <= k <= l <= inner.len() && stem == inner.subrange(k, l);
    assert forall|n: int| 0 <= n < stem.len() implies !is_reserved(#[trigger] stem[n])
        && !is_control(stem[n]) by {
        assert(stem[n] == replaced[i + k + n]);
        assert(replaced[i + k + n] == in_file_name(label[i + k + n]));
    }
}

/// A label that is already safe names its file as it is.
pub proof fn safe_label_is_kept(label: Text)
    requires
        label.len() > 0,
        forall|i: int|
            0 <= i < label.len() ==> !is_reserved(#[trigger] label[i]) && !is_control(label[i]),
        !is_blank(label[0]) && !is_blank(label.last()),
        label[0] != '.' && label.last() != '.',
    ensures
        file_stem(label) == label,
{
    assert(label.map_values(|c: char| in_file_name(c)) =~= label);
}

/// Every file that is written for a definition is found again among the files of
/// the directory.
pub proof fn definition_file_is_recognized(label: Text)
    ensures
        names_definition(file_stem(label) + ".toml"@),
{
    reveal_strlit(".toml");
    file_stem_is_safe(label);
    let name = file_stem(label) + ".toml"@;
    assert(name.skip(name.len() - 5) =~= ".toml"@);
}

/// The characters that a file name does not take, in one text.
pub open spec fn refused_characters() -> Text {
    "/\\:*?\"<>|"@
}

/// The name of a definition's file is the label with an underscore for each character
/// that a file name does not take, all others kept in their order; at either end first
/// the white space is cut off and then the dots, and nothing else. Where nothing is
/// left the name is `workspace`.
pub proof fn file_stem_follows_the_label(label: Text) -> (cuts: (int, int, int, int))
    ensures
        ({
            let (a, b, c, d) = cuts;
            let shown = Seq::new(
                label.len(),
                |i: int|
                    if refused_characters().contains(label[i]) || is_control(label[i]) {
                        '_'
                    } else {
                        label[i]
                    },
            );
            &&& 0 <= a <= b <= c <= d <= label.len()
            &&& forall|i: int| 0 <= i < a ==> is_blank(#[trigger] shown[i])
            &&& forall|i: int| d <= i < label.len() ==> is_blank(#[trigger] shown[i])
            &&& a < d ==> !is_blank(shown[a]) && !is_blank(shown[d - 1])
            &&& forall|i: int| a <= i < b ==> #[trigger] shown[i] == '.'
            &&& forall|i: int| c <= i < d ==> #[trigger] shown[i] == '.'
            &&& b < c ==> shown[b] != '.' && shown[c - 1] != '.'
            &&& b < c ==> file_stem(label) == shown.subrange(b, c)
            &&& b == c ==> file_stem(label) == "workspace"@
        }),
{
    reveal_strlit("/\\:*?\"<>|");
    let refused = refused_characters();
    let shown = Seq::new(
        label.len(),
        |i: int|
            if refused.contains(label[i]) || is_control(label[i]) {
                '_'
            } else {
                label[i]
            },
    );
    assert forall|x: char| refused.contains(x) == is_reserved(x) by {
        assert(refused[0] == '/' && refused[1] == '\\' && refused[2] == ':' && refused[3] == '*'
            && refused[4] == '?' && refused[5] == '"' && refused[6] == '<' && refused[7] == '>'
            && refused[8] == '|');
        assert(refused.len() == 9);
    }
    let replaced = label.map_values(|x: char| in_file_name(x));
    assert(replaced =~= shown);
    let outer = trimming_cuts_the_margin(replaced, Margin::Blanks);
    let inner = replaced.subrange(outer.0, outer.1);
    let ends = trimming_cuts_the_margin(inner, Margin::Dots);
    let a = outer.0;
    let d = outer.1;
    let b = a + ends.0;
    let c = a + ends.1;
    assert forall|i: int| 0 <= i < a implies is_blank(#[trigger] shown[i]) by {
        assert(Margin::Blanks.has(replaced[i]));
    }
    assert forall|i: int| d <= i < label.len() implies is_blank(#[trigger] shown[i]) by {
        assert(Margin::Blanks.has(replaced[i]));
    }
    assert forall|i: int| a <= i < b implies #[trigger] shown[i] == '.' by {
        assert(Margin::Dots.has(inner[i - a]));
    }
    assert forall|i: int| c <= i < d implies #[trigger] shown[i] == '.' by {
        assert(Margin::Dots.has(inner[i - a]));
    }
    if b < c {
        assert(!Margin::Dots.has(inner[ends.0]) && !Margin::Dots.has(inner[ends.1 - 1]));
    }
    assert(inner.subrange(ends.0, ends.1) =~= shown.subrange(b, c));
    (a, b, c, d)
}

/// A file holds a definition exactly where something stands in front of `.toml` in its
/// name.
pub proof fn extension_makes_the_definition_file(name: Text)
    ensures
        names_definition(name) <==> exists|stem: Text|
            stem.len() > 0 && name == #[trigger] (stem + ".toml"@),
{
    reveal_strlit(".toml");
    if names_definition(name) {
        let stem = name.take(name.len() - 5);
        assert(name =~= stem + ".toml"@);
    }
    if exists|stem: Text| stem.len() > 0 && name == #[trigger] (stem + ".toml"@) {
        let stem = choose|stem: Text| stem.len() > 0 && name == #[trigger] (stem + ".toml"@);
        assert(name.skip(name.len() - 5) =~= ".toml"@);
    }
}

} // verus!
