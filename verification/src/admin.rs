//! Substrate administration decisions: reading the toolchain's CUDA
//! release, the package version, version alignment of the documents, and
//! the classification of natural-language admin intents.
use vstd::prelude::*;
use crate::error::{EaiError, EaiResult};
use crate::text::{
    seq_contains, seq_starts_with, trim, lowercase, lines, split_lines, second_piece, second_piece_of,
    prefix_before, before_char, lemma_prefix_before, suffix_from, chars_of, contains_str, contains,
    equals_str, starts_with, trimmed, string_of, lower_chars, push_str,
};

verus! {

/// The first line that mentions `release`, if any.
pub open spec fn first_release_line(ls: Seq<Seq<char>>) -> Option<Seq<char>>
    decreases ls.len(),
{
    if ls.len() == 0 {
        None
    } else if seq_contains(ls[0], "release"@) {
        Some(ls[0])
    } else {
        first_release_line(ls.drop_first())
    }
}

/// The `X.Y` release in `nvcc --version` output: on the first line that
/// mentions `release`, the text after `release ` up to a comma, trimmed.
pub open spec fn nvcc_release(text: Seq<char>) -> Option<Seq<char>> {
    match first_release_line(lines(text)) {
        None => None,
        Some(l) => match second_piece(l, "release "@) {
            None => None,
            Some(v) => Some(trim(prefix_before(v, ','))),
        },
    }
}

/// Every character is an ASCII digit.
pub open spec fn all_digits(s: Seq<char>) -> bool {
    forall|i: int| 0 <= i < s.len() ==> '0' <= #[trigger] s[i] <= '9'
}

/// The decimal value of a string of ASCII digits.
pub open spec fn digits_value(s: Seq<char>) -> nat
    decreases s.len(),
{
    if s.len() == 0 {
        0
    } else {
        digits_value(s.drop_last()) * 10 + ((s.last() as u32 - 48) as nat)
    }
}

/// A CUDA 13.x release past 13.3: the part before the first `.` is `13`,
/// and the rest is a non-empty run of digits whose value fits a `u32` and
/// exceeds 3.
pub open spec fn needs_clamp(version: Seq<char>) -> bool {
    let major = prefix_before(version, '.');
    let minor = version.skip(major.len() as int + 1);
    &&& major.len() < version.len()
    &&& major == "13"@
    &&& minor.len() > 0
    &&& all_digits(minor)
    &&& digits_value(minor) <= u32::MAX
    &&& digits_value(minor) > 3
}

/// The version of the `[package]` table among `ls`, reading on from a
/// position that is (or is not) inside that table: the text between the
/// first two quotes of its first `version = "` line.
pub open spec fn package_version(ls: Seq<Seq<char>>, in_package: bool) -> Option<Seq<char>>
    decreases ls.len(),
{
    if ls.len() == 0 {
        None
    } else {
        let t = trim(ls[0]);
        if t == "[package]"@ {
            package_version(ls.drop_first(), true)
        } else if seq_starts_with(t, "["@) {
            package_version(ls.drop_first(), false)
        } else if in_package && seq_starts_with(t, "version = \""@) {
            Some(prefix_before(t.skip(11), '"'))
        } else {
            package_version(ls.drop_first(), in_package)
        }
    }
}

/// The badge a README shows for a version.
pub open spec fn version_badge(version: Seq<char>) -> Seq<char> {
    "version-v"@ + version + "-blue.svg"@
}

/// A governance document's version line, current or legacy.
pub open spec fn governance_mentions(content: Seq<char>, version: Seq<char>) -> bool {
    seq_contains(content, "version = \""@ + version + "\""@)
        || seq_contains(content, "* **Current Engine Version**: `v"@ + version + "`"@)
}

/// The first governance document (name, content) that does not mention
/// the version.
pub open spec fn first_stale(docs: Seq<(Seq<char>, Seq<char>)>, version: Seq<char>, i: int) -> bool {
    &&& 0 <= i < docs.len()
    &&& !governance_mentions(docs[i].1, version)
    &&& forall|j: int| 0 <= j < i ==> governance_mentions(#[trigger] docs[j].1, version)
}

/// The intent classes an admin intent falls into.
#[derive(Debug, Clone, Copy, PartialEq, Eq, Structural)]
pub enum AdminIntentClass {
    Query,
    Motion,
    Mission,
}

/// The class keywords alone decide for a lowercased, trimmed intent.
pub open spec fn keyword_class(lower: Seq<char>) -> Option<AdminIntentClass> {
    if lower == "identity"@ || lower == "status"@ || lower == "models"@ || lower == "version"@
        || lower == "ls"@ || seq_starts_with(lower, "ls "@) || lower == "dir"@
        || seq_contains(lower, "who am i"@) || seq_contains(lower, "whoami"@)
        || seq_starts_with(lower, "susi status"@) || seq_starts_with(lower, "susi identity"@)
        || seq_starts_with(lower, "susi models"@) {
        Some(AdminIntentClass::Query)
    } else if seq_contains(lower, "motion"@) || seq_contains(lower, "architecture"@) || seq_contains(lower, "hardcode"@) {
        Some(AdminIntentClass::Motion)
    } else {
        None
    }
}

/// The class a reflex action's lowercase text suggests, if any.
pub open spec fn reflex_class(lower_action: Seq<char>) -> Option<AdminIntentClass> {
    if seq_contains(lower_action, "query"@) || seq_contains(lower_action, "status"@) || seq_contains(lower_action, "identity"@) {
        Some(AdminIntentClass::Query)
    } else if seq_contains(lower_action, "motion"@) || seq_contains(lower_action, "recompile"@) {
        Some(AdminIntentClass::Motion)
    } else if seq_contains(lower_action, "mission"@) || seq_contains(lower_action, "solve"@) {
        Some(AdminIntentClass::Mission)
    } else {
        None
    }
}

/// The tag and description of an intent class.
pub open spec fn class_labels(c: AdminIntentClass) -> (Seq<char>, Seq<char>) {
    match c {
        AdminIntentClass::Query => ("[QUERY]"@, "Zero-Mutation Interrogation"@),
        AdminIntentClass::Motion => ("[MOTION]"@, "Architectural Evolution"@),
        AdminIntentClass::Mission => ("[MISSION]"@, "Dynamic Task Fulfillment"@),
    }
}

/// The class of an intent: its keywords decide when they can; otherwise
/// the lowercase text of the reflex action proposed for it (if any);
/// otherwise it is a mission.
pub open spec fn intent_class(intent: Seq<char>, reflex_action: Option<Seq<char>>) -> AdminIntentClass {
    match keyword_class(lowercase(trim(intent))) {
        Some(k) => k,
        None => match reflex_action {
            Some(a) => match reflex_class(lowercase(a)) {
                Some(k) => k,
                None => AdminIntentClass::Mission,
            },
            None => AdminIntentClass::Mission,
        },
    }
}

/// A reflex action's text, if there is one.
pub open spec fn action_text(reflex_action: Option<&str>) -> Option<Seq<char>> {
    match reflex_action {
        Some(a) => Some(a@),
        None => None,
    }
}

/// Substrate administration.
pub struct SusiAdmin;

impl SusiAdmin {
    /// The `X.Y` CUDA release in `nvcc --version` output, e.g.
    /// `release 13.4, V13.4.59` gives `13.4`.
    pub fn cuda_version_from_nvcc_output(text: &str) -> (r: Option<String>)
        ensures
            match r {
                Some(v) => nvcc_release(text@) == Some(v@),
                None => nvcc_release(text@) is None,
            },
    {
        let chars = chars_of(text);
        let ls = split_lines(&chars);
        let ghost lv = ls@.map_values(|l: Vec<char>| l@);
        let marker = chars_of("release ");
        let mut i: usize = 0;
        proof {
            assert(lv.skip(0) =~= lv);
        }
        while i < ls.len()
            invariant
                i <= ls@.len(),
                lv == ls@.map_values(|l: Vec<char>| l@),
                lv == lines(text@),
                marker@ == "release "@,
                first_release_line(lv) == first_release_line(lv.skip(i as int)),
            decreases ls.len() - i,
        {
            proof {
                assert(lv.skip(i as int)[0] == ls@[i as int]@);
                assert(lv.skip(i as int).drop_first() =~= lv.skip(i + 1));
            }
            if contains_str(&ls[i], "release") {
                return match second_piece_of(&ls[i], &marker) {
                    None => None,
                    Some(v) => {
                        let head = before_char(&v, ',');
                        let t = trimmed(&head);
                        Some(string_of(&t))
                    },
                };
            }
            i = i + 1;
        }
        proof {
            assert(lv.skip(i as int).len() == 0);
        }
        None
    }

    /// Whether a CUDA release is a 13.x release past 13.3.
    pub fn cuda_version_needs_clamp(version: &str) -> (b: bool)
        ensures
            b == needs_clamp(version@),
    {
        let v = chars_of(version);
        let major = before_char(&v, '.');
        proof {
            lemma_prefix_before(v@, '.');
        }
        if major.len() >= v.len() {
            return false;
        }
        if !equals_str(&major, "13") {
            return false;
        }
        let minor = suffix_from(&v, major.len() + 1);
        if minor.len() == 0 {
            return false;
        }
        let mut value: u64 = 0;
        let mut digits = true;
        let mut i: usize = 0;
        while i < minor.len()
            invariant
                i <= minor@.len(),
                digits ==> all_digits(minor@.take(i as int)),
                digits ==> (value <= u32::MAX ==> value == digits_value(minor@.take(i as int))),
                digits ==> (value > u32::MAX ==> digits_value(minor@.take(i as int)) > u32::MAX),
                digits ==> value <= u32::MAX + 1,
                !digits ==> !all_digits(minor@),
            decreases minor.len() - i,
        {
            let c = minor[i];
            proof {
                assert(minor@.take(i + 1).drop_last() =~= minor@.take(i as int));
                assert(minor@.take(i + 1).last() == c);
            }
            if !('0' <= c && c <= '9') {
                digits = false;
                proof {
                    assert(!('0' <= minor@[i as int] <= '9'));
                }
            } else if digits {
                let d = (c as u32 - 48) as u64;
                if value > 0xFFFF_FFFF {
                    value = 0x1_0000_0000;
                } else {
                    let next = value * 10 + d;
                    if next > 0xFFFF_FFFF {
                        value = 0x1_0000_0000;
                    } else {
                        value = next;
                    }
                }
                proof {
                    assert forall|j: int| 0 <= j < i + 1 implies '0' <= #[trigger] minor@.take(i + 1)[j] <= '9' by {
                        if j < i {
                            assert(minor@.take(i + 1)[j] == minor@.take(i as int)[j]);
                        }
                    }
                }
            }
            i = i + 1;
        }
        proof {
            assert(minor@.take(minor@.len() as int) =~= minor@);
        }
        digits && value <= 0xFFFF_FFFF && value > 3
    }

    /// The environment override to set for a toolchain whose
    /// `nvcc --version` output is given, when its CUDA release needs one.
    pub fn cuda_version_clamp_env(nvcc_output: &str) -> (r: Option<(&'static str, &'static str)>)
        ensures
            match nvcc_release(nvcc_output@) {
                Some(v) => if needs_clamp(v) {
                    r matches Some(p) && p.0@ == "CUDARC_CUDA_VERSION"@ && p.1@ == "13030"@
                } else {
                    r is None
                },
                None => r is None,
            },
    {
        match Self::cuda_version_from_nvcc_output(nvcc_output) {
            Some(v) => {
                if Self::cuda_version_needs_clamp(v.as_str()) {
                    Some(("CUDARC_CUDA_VERSION", "13030"))
                } else {
                    None
                }
            },
            None => None,
        }
    }

    /// The package version a `Cargo.toml` declares in its `[package]`
    /// table; a configuration error when it declares none.
    pub fn get_cargo_version(cargo_toml: &str) -> (r: EaiResult<String>)
        ensures
            match package_version(lines(cargo_toml@), false) {
                Some(v) => r matches Ok(s) && s@ == v,
                None => r matches Err(e) && e == EaiError::Config(e->Config_0)
                    && e->Config_0@ == "Could not find version in Cargo.toml"@,
            },
    {
        let chars = chars_of(cargo_toml);
        let ls = split_lines(&chars);
        let ghost lv = ls@.map_values(|l: Vec<char>| l@);
        let open_bracket = chars_of("[");
        let version_key = chars_of("version = \"");
        let mut in_package = false;
        let mut i: usize = 0;
        proof {
            assert(lv.skip(0) =~= lv);
        }
        while i < ls.len()
            invariant
                i <= ls@.len(),
                lv == ls@.map_values(|l: Vec<char>| l@),
                lv == lines(cargo_toml@),
                open_bracket@ == "["@,
                version_key@ == "version = \""@,
                package_version(lv, false) == package_version(lv.skip(i as int), in_package),
            decreases ls.len() - i,
        {
            proof {
                assert(lv.skip(i as int)[0] == ls@[i as int]@);
                assert(lv.skip(i as int).drop_first() =~= lv.skip(i + 1));
            }
            let t = trimmed(&ls[i]);
            if equals_str(&t, "[package]") {
                in_package = true;
            } else if starts_with(&t, &open_bracket) {
                in_package = false;
            } else if in_package && starts_with(&t, &version_key) {
                proof {
                    reveal_strlit("version = \"");
                }
                let rest = suffix_from(&t, 11);
                let v = before_char(&rest, '"');
                return Ok(string_of(&v));
            }
            i = i + 1;
        }
        proof {
            assert(lv.skip(i as int).len() == 0);
        }
        Err(EaiError::config("Could not find version in Cargo.toml"))
    }

    /// Checks that the documents name the package version: the README's
    /// badge (when there is a README) and then each governance document
    /// (name and content, for those that exist, in checking order), each by
    /// its version line. The first document out of sync is named in a
    /// configuration error; a `Cargo.toml` without a version is an error
    /// too.
    pub fn verify_version_alignment(
        cargo_toml: &str,
        readme: Option<&str>,
        governance_docs: &Vec<(String, String)>,
    ) -> (r: EaiResult<()>)
        ensures
            ({
                let docs = governance_docs@.map_values(|d: (String, String)| (d.0@, d.1@));
                match package_version(lines(cargo_toml@), false) {
                    None => r matches Err(e) && e == EaiError::Config(e->Config_0)
                        && e->Config_0@ == "Could not find version in Cargo.toml"@,
                    Some(v) => if readme matches Some(c) && !seq_contains(c@, version_badge(v)) {
                        r matches Err(e) && e == EaiError::Config(e->Config_0)
                            && e->Config_0@ == "README.md version badge is out of sync with Cargo.toml (v"@ + v
                                + "). Run 'susi admin sync'."@
                    } else if forall|j: int| 0 <= j < docs.len() ==> governance_mentions(#[trigger] docs[j].1, v) {
                        r is Ok
                    } else {
                        r matches Err(e) && e == EaiError::Config(e->Config_0) && exists|i: int| first_stale(docs, v, i)
                            && e->Config_0@ == docs[i].0 + ": version is out of sync with Cargo.toml (v"@ + v
                                + "). Run 'susi admin sync'."@
                    },
                }
            }),
    {
        let version = match Self::get_cargo_version(cargo_toml) {
            Ok(v) => v,
            Err(e) => return Err(e),
        };
        let ghost v = version@;
        proof {
            reveal_strlit("version-v");
            reveal_strlit("-blue.svg");
        }
        match readme {
            Some(content) => {
                let c = chars_of(content);
                let mut badge = String::new();
                push_str(&mut badge, "version-v");
                push_str(&mut badge, version.as_str());
                push_str(&mut badge, "-blue.svg");
                let b = chars_of(badge.as_str());
                if !contains(&c, &b) {
                    let mut msg = String::new();
                    push_str(&mut msg, "README.md version badge is out of sync with Cargo.toml (v");
                    push_str(&mut msg, version.as_str());
                    push_str(&mut msg, "). Run 'susi admin sync'.");
                    return Err(EaiError::config(msg.as_str()));
                }
            },
            None => {},
        }
        let mut line = String::new();
        push_str(&mut line, "version = \"");
        push_str(&mut line, version.as_str());
        push_str(&mut line, "\"");
        let line_chars = chars_of(line.as_str());
        let mut legacy = String::new();
        push_str(&mut legacy, "* **Current Engine Version**: `v");
        push_str(&mut legacy, version.as_str());
        push_str(&mut legacy, "`");
        let legacy_chars = chars_of(legacy.as_str());
        let ghost docs = governance_docs@.map_values(|d: (String, String)| (d.0@, d.1@));
        let mut i: usize = 0;
        while i < governance_docs.len()
            invariant
                i <= governance_docs@.len(),
                docs == governance_docs@.map_values(|d: (String, String)| (d.0@, d.1@)),
                version@ == v,
                package_version(lines(cargo_toml@), false) == Some(v),
                !(readme matches Some(c) && !seq_contains(c@, version_badge(v))),
                line_chars@ == "version = \""@ + v + "\""@,
                legacy_chars@ == "* **Current Engine Version**: `v"@ + v + "`"@,
                forall|j: int| 0 <= j < i ==> governance_mentions(#[trigger] docs[j].1, v),
            decreases governance_docs.len() - i,
        {
            let content = chars_of(governance_docs[i].1.as_str());
            proof {
                assert(docs[i as int] == (governance_docs@[i as int].0@, governance_docs@[i as int].1@));
            }
            if !contains(&content, &line_chars) && !contains(&content, &legacy_chars) {
                let mut msg = String::new();
                push_str(&mut msg, governance_docs[i].0.as_str());
                push_str(&mut msg, ": version is out of sync with Cargo.toml (v");
                push_str(&mut msg, version.as_str());
                push_str(&mut msg, "). Run 'susi admin sync'.");
                let e = EaiError::config(msg.as_str());
                proof {
                    assert(first_stale(docs, v, i as int));
                    assert(first_stale(docs, v, i as int) && e->Config_0@ == docs[i as int].0
                        + ": version is out of sync with Cargo.toml (v"@ + v + "). Run 'susi admin sync'."@);
                }
                return Err(e);
            }
            i = i + 1;
        }
        Ok(())
    }

    /// The class an intent's keywords decide, before any reflex is
    /// consulted.
    pub fn keyword_classification(intent: &str) -> (r: Option<AdminIntentClass>)
        ensures
            r == keyword_class(lowercase(trim(intent@))),
    {
        let l = crate::text::trimmed_lower(intent);
        let ls = chars_of("ls ");
        let s_status = chars_of("susi status");
        let s_identity = chars_of("susi identity");
        let s_models = chars_of("susi models");
        if equals_str(&l, "identity") || equals_str(&l, "status") || equals_str(&l, "models")
            || equals_str(&l, "version") || equals_str(&l, "ls") || starts_with(&l, &ls)
            || equals_str(&l, "dir") || contains_str(&l, "who am i") || contains_str(&l, "whoami")
            || starts_with(&l, &s_status) || starts_with(&l, &s_identity) || starts_with(&l, &s_models) {
            Some(AdminIntentClass::Query)
        } else if contains_str(&l, "motion") || contains_str(&l, "architecture") || contains_str(&l, "hardcode") {
            Some(AdminIntentClass::Motion)
        } else {
            None
        }
    }

    /// Classifies a natural-language admin intent: its keywords decide
    /// when they can; otherwise the reflex action the pulse brain proposed
    /// for it (if any) decides; otherwise it is a mission. Returns the tag
    /// and its description.
    pub fn classify_natural_intent(intent: &str, reflex_action: Option<&str>) -> (r: (&'static str, &'static str))
        ensures
            (r.0@, r.1@) == class_labels(intent_class(intent@, action_text(reflex_action))),
    {
        let class = match Self::keyword_classification(intent) {
            Some(k) => k,
            None => match reflex_action {
                Some(a) => {
                    let l = lower_chars(a);
                    if contains_str(&l, "query") || contains_str(&l, "status") || contains_str(&l, "identity") {
                        AdminIntentClass::Query
                    } else if contains_str(&l, "motion") || contains_str(&l, "recompile") {
                        AdminIntentClass::Motion
                    } else {
                        AdminIntentClass::Mission
                    }
                },
                None => AdminIntentClass::Mission,
            },
        };
        match class {
            AdminIntentClass::Query => ("[QUERY]", "Zero-Mutation Interrogation"),
            AdminIntentClass::Motion => ("[MOTION]", "Architectural Evolution"),
            AdminIntentClass::Mission => ("[MISSION]", "Dynamic Task Fulfillment"),
        }
    }
}

/// Lines written back as a file: each followed by a newline (a file with
/// no lines becomes a single newline).
pub open spec fn terminated(ls: Seq<Seq<char>>) -> Seq<char>
    decreases ls.len(),
{
    if ls.len() == 0 {
        Seq::empty()
    } else {
        terminated(ls.drop_last()) + ls.last() + "\n"@
    }
}

/// The text of lines joined with newlines plus a final newline.
pub open spec fn file_of(ls: Seq<Seq<char>>) -> Seq<char> {
    if ls.len() == 0 { "\n"@ } else { terminated(ls) }
}

/// The `version = "..."` line for a version.
pub open spec fn version_line(version: Seq<char>) -> Seq<char> {
    "version = \""@ + version + "\""@
}

/// The README badge line for a version.
pub open spec fn badge_line(version: Seq<char>) -> Seq<char> {
    "![SUSI Version](https://img.shields.io/badge/version-v"@ + version
        + "-blue.svg) ![License](https://img.shields.io/badge/license-Apache%202.0-green.svg)"@
}

/// The legacy governance version line for a version.
pub open spec fn legacy_line(version: Seq<char>) -> Seq<char> {
    "* **Current Engine Version**: `v"@ + version + "`"@
}

/// Manifest lines with every `version = "` line of the `[package]` table
/// set to `version`, reading on from a position inside (or outside) it.
pub open spec fn synced_package_lines(ls: Seq<Seq<char>>, in_package: bool, version: Seq<char>) -> Seq<Seq<char>>
    decreases ls.len(),
{
    if ls.len() == 0 {
        Seq::empty()
    } else {
        let t = trim(ls[0]);
        let inside = if t == "[package]"@ { true } else if seq_starts_with(t, "["@) { false } else { in_package };
        let line = if inside && seq_starts_with(t, "version = \""@) { version_line(version) } else { ls[0] };
        seq![line] + synced_package_lines(ls.drop_first(), inside, version)
    }
}

/// README lines with every version badge line replaced.
pub open spec fn synced_readme_lines(ls: Seq<Seq<char>>, version: Seq<char>) -> Seq<Seq<char>> {
    ls.map_values(|l: Seq<char>| if seq_contains(l, "https://img.shields.io/badge/version-v"@) { badge_line(version) } else { l })
}

/// Governance lines with the front-matter `version = "` lines and the
/// legacy version lines after it set to `version`; `dashes` counts the
/// `---` lines seen so far (front matter lies after the first).
pub open spec fn synced_governance_lines(ls: Seq<Seq<char>>, dashes: nat, version: Seq<char>) -> Seq<Seq<char>>
    decreases ls.len(),
{
    if ls.len() == 0 {
        Seq::empty()
    } else {
        let t = trim(ls[0]);
        if t == "---"@ {
            seq![ls[0]] + synced_governance_lines(ls.drop_first(), dashes + 1, version)
        } else {
            let line = if dashes == 1 && seq_starts_with(t, "version = \""@) {
                version_line(version)
            } else if dashes != 1 && seq_starts_with(t, "* **Current Engine Version**: `v"@) {
                legacy_line(version)
            } else {
                ls[0]
            };
            seq![line] + synced_governance_lines(ls.drop_first(), dashes, version)
        }
    }
}

/// Writes lines back as file text.
fn write_lines(ls: &Vec<Vec<char>>) -> (r: String)
    ensures
        r@ == file_of(ls@.map_values(|l: Vec<char>| l@)),
{
    let ghost lv = ls@.map_values(|l: Vec<char>| l@);
    let mut out = String::new();
    let mut i: usize = 0;
    proof {
        assert(lv.take(0) =~= Seq::<Seq<char>>::empty());
    }
    while i < ls.len()
        invariant
            i <= ls@.len(),
            lv == ls@.map_values(|l: Vec<char>| l@),
            out@ == terminated(lv.take(i as int)),
        decreases ls.len() - i,
    {
        proof {
            assert(lv.take(i + 1).drop_last() =~= lv.take(i as int));
            assert(lv.take(i + 1).last() == ls@[i as int]@);
        }
        let l = string_of(&ls[i]);
        push_str(&mut out, l.as_str());
        push_str(&mut out, "\n");
        i = i + 1;
    }
    proof {
        assert(lv.take(ls@.len() as int) =~= lv);
    }
    if ls.len() == 0 {
        push_str(&mut out, "\n");
    }
    out
}

/// What a version sync writes: the version, and the new text of each
/// document that exists (governance documents by name, in order).
#[derive(Debug, Clone)]
pub struct VersionSync {
    pub version: String,
    pub launcher_manifest: Option<String>,
    pub readme: Option<String>,
    pub governance_docs: Vec<(String, String)>,
}

impl SusiAdmin {
    /// A launcher manifest with its package version set to `version`.
    pub fn sync_launcher_manifest(content: &str, version: &str) -> (r: String)
        ensures
            r@ == file_of(synced_package_lines(lines(content@), false, version@)),
    {
        let chars = chars_of(content);
        let ls = split_lines(&chars);
        let ghost lv = ls@.map_values(|l: Vec<char>| l@);
        let open_bracket = chars_of("[");
        let version_key = chars_of("version = \"");
        let mut vline = String::new();
        push_str(&mut vline, "version = \"");
        push_str(&mut vline, version);
        push_str(&mut vline, "\"");
        let vchars = chars_of(vline.as_str());
        let mut out: Vec<Vec<char>> = Vec::new();
        let mut in_package = false;
        let mut i: usize = 0;
        proof {
            assert(lv.skip(0) =~= lv);
            assert(out@.map_values(|l: Vec<char>| l@) =~= Seq::<Seq<char>>::empty());
        }
        while i < ls.len()
            invariant
                i <= ls@.len(),
                lv == ls@.map_values(|l: Vec<char>| l@),
                lv == lines(content@),
                open_bracket@ == "["@,
                version_key@ == "version = \""@,
                vchars@ == version_line(version@),
                synced_package_lines(lv, false, version@)
                    == out@.map_values(|l: Vec<char>| l@) + synced_package_lines(lv.skip(i as int), in_package, version@),
            decreases ls.len() - i,
        {
            let ghost ov = out@.map_values(|l: Vec<char>| l@);
            proof {
                assert(lv.skip(i as int)[0] == ls@[i as int]@);
                assert(lv.skip(i as int).drop_first() =~= lv.skip(i + 1));
            }
            let t = trimmed(&ls[i]);
            if equals_str(&t, "[package]") {
                in_package = true;
            } else if starts_with(&t, &open_bracket) {
                in_package = false;
            }
            let line = if in_package && starts_with(&t, &version_key) {
                copy_chars(&vchars)
            } else {
                copy_chars(&ls[i])
            };
            let ghost lw = line@;
            out.push(line);
            proof {
                assert(out@.map_values(|l: Vec<char>| l@) =~= ov.push(lw));
                assert(ov.push(lw) + synced_package_lines(lv.skip(i + 1), in_package, version@)
                    =~= ov + (seq![lw] + synced_package_lines(lv.skip(i + 1), in_package, version@)));
            }
            i = i + 1;
        }
        proof {
            assert(lv.skip(i as int) =~= Seq::<Seq<char>>::empty());
            assert(out@.map_values(|l: Vec<char>| l@) + Seq::<Seq<char>>::empty() =~= out@.map_values(|l: Vec<char>| l@));
        }
        write_lines(&out)
    }

    /// A README with every version badge line set to `version`'s badge.
    pub fn sync_readme_badge(content: &str, version: &str) -> (r: String)
        ensures
            r@ == file_of(synced_readme_lines(lines(content@), version@)),
    {
        let chars = chars_of(content);
        let ls = split_lines(&chars);
        let ghost lv = ls@.map_values(|l: Vec<char>| l@);
        let mut badge = String::new();
        push_str(&mut badge, "![SUSI Version](https://img.shields.io/badge/version-v");
        push_str(&mut badge, version);
        push_str(&mut badge, "-blue.svg) ![License](https://img.shields.io/badge/license-Apache%202.0-green.svg)");
        let bchars = chars_of(badge.as_str());
        let mut out: Vec<Vec<char>> = Vec::new();
        let mut i: usize = 0;
        while i < ls.len()
            invariant
                i <= ls@.len(),
                lv == ls@.map_values(|l: Vec<char>| l@),
                bchars@ == badge_line(version@),
                out@.len() == i,
                forall|j: int| 0 <= j < i ==> (#[trigger] out@[j])@ == synced_readme_lines(lv, version@)[j],
            decreases ls.len() - i,
        {
            let line = if contains_str(&ls[i], "https://img.shields.io/badge/version-v") {
                copy_chars(&bchars)
            } else {
                copy_chars(&ls[i])
            };
            proof {
                assert(lv[i as int] == ls@[i as int]@);
            }
            out.push(line);
            i = i + 1;
        }
        proof {
            assert(out@.map_values(|l: Vec<char>| l@) =~= synced_readme_lines(lines(content@), version@));
        }
        write_lines(&out)
    }

    /// A governance document with its front-matter and legacy version lines
    /// set to `version`.
    pub fn sync_governance_doc(content: &str, version: &str) -> (r: String)
        ensures
            r@ == file_of(synced_governance_lines(lines(content@), 0, version@)),
    {
        let chars = chars_of(content);
        let ls = split_lines(&chars);
        let ghost lv = ls@.map_values(|l: Vec<char>| l@);
        let version_key = chars_of("version = \"");
        let legacy_key = chars_of("* **Current Engine Version**: `v");
        let mut vline = String::new();
        push_str(&mut vline, "version = \"");
        push_str(&mut vline, version);
        push_str(&mut vline, "\"");
        let vchars = chars_of(vline.as_str());
        let mut lline = String::new();
        push_str(&mut lline, "* **Current Engine Version**: `v");
        push_str(&mut lline, version);
        push_str(&mut lline, "`");
        let lchars = chars_of(lline.as_str());
        let mut out: Vec<Vec<char>> = Vec::new();
        let mut dashes: usize = 0;
        let mut i: usize = 0;
        proof {
            assert(lv.skip(0) =~= lv);
            assert(out@.map_values(|l: Vec<char>| l@) =~= Seq::<Seq<char>>::empty());
        }
        while i < ls.len()
            invariant
                i <= ls@.len(),
                dashes <= i,
                lv == ls@.map_values(|l: Vec<char>| l@),
                version_key@ == "version = \""@,
                legacy_key@ == "* **Current Engine Version**: `v"@,
                vchars@ == version_line(version@),
                lchars@ == legacy_line(version@),
                synced_governance_lines(lines(content@), 0, version@)
                    == out@.map_values(|l: Vec<char>| l@) + synced_governance_lines(lv.skip(i as int), dashes as nat, version@),
                lv == lines(content@),
            decreases ls.len() - i,
        {
            let ghost ov = out@.map_values(|l: Vec<char>| l@);
            let ghost d0 = dashes as nat;
            proof {
                assert(lv.skip(i as int)[0] == ls@[i as int]@);
                assert(lv.skip(i as int).drop_first() =~= lv.skip(i + 1));
            }
            let t = trimmed(&ls[i]);
            let line = if equals_str(&t, "---") {
                dashes = dashes + 1;
                copy_chars(&ls[i])
            } else if dashes == 1 && starts_with(&t, &version_key) {
                copy_chars(&vchars)
            } else if dashes != 1 && starts_with(&t, &legacy_key) {
                copy_chars(&lchars)
            } else {
                copy_chars(&ls[i])
            };
            let ghost lw = line@;
            out.push(line);
            proof {
                assert(out@.map_values(|l: Vec<char>| l@) =~= ov.push(lw));
                assert(ov.push(lw) + synced_governance_lines(lv.skip(i + 1), dashes as nat, version@)
                    =~= ov + (seq![lw] + synced_governance_lines(lv.skip(i + 1), dashes as nat, version@)));
            }
            i = i + 1;
        }
        proof {
            assert(lv.skip(i as int) =~= Seq::<Seq<char>>::empty());
            assert(out@.map_values(|l: Vec<char>| l@) + Seq::<Seq<char>>::empty() =~= out@.map_values(|l: Vec<char>| l@));
        }
        write_lines(&out)
    }

    /// The version sync: the package version of `cargo_toml` written into
    /// the launcher manifest, the README badge and the governance documents
    /// (those that exist are given, governance documents by name).
    pub fn enforce_version_consistency(
        cargo_toml: &str,
        launcher_manifest: Option<&str>,
        readme: Option<&str>,
        governance_docs: &Vec<(String, String)>,
    ) -> (r: EaiResult<VersionSync>)
        ensures
            match package_version(lines(cargo_toml@), false) {
                None => r matches Err(e) && e == EaiError::Config(e->Config_0)
                    && e->Config_0@ == "Could not find version in Cargo.toml"@,
                Some(v) => r matches Ok(s) && {
                    &&& s.version@ == v
                    &&& match launcher_manifest {
                        None => s.launcher_manifest is None,
                        Some(c) => s.launcher_manifest matches Some(t)
                            && t@ == file_of(synced_package_lines(lines(c@), false, v)),
                    }
                    &&& match readme {
                        None => s.readme is None,
                        Some(c) => s.readme matches Some(t) && t@ == file_of(synced_readme_lines(lines(c@), v)),
                    }
                    &&& s.governance_docs@.len() == governance_docs@.len()
                    &&& forall|i: int| 0 <= i < governance_docs@.len() ==> {
                        &&& (#[trigger] s.governance_docs@[i]).0@ == governance_docs@[i].0@
                        &&& s.governance_docs@[i].1@ == file_of(synced_governance_lines(lines(governance_docs@[i].1@), 0, v))
                    }
                },
            },
    {
        let version = match Self::get_cargo_version(cargo_toml) {
            Ok(v) => v,
            Err(e) => return Err(e),
        };
        let launcher = match launcher_manifest {
            Some(c) => Some(Self::sync_launcher_manifest(c, version.as_str())),
            None => None,
        };
        let readme_out = match readme {
            Some(c) => Some(Self::sync_readme_badge(c, version.as_str())),
            None => None,
        };
        let mut docs: Vec<(String, String)> = Vec::new();
        let mut i: usize = 0;
        while i < governance_docs.len()
            invariant
                i <= governance_docs@.len(),
                docs@.len() == i,
                forall|j: int| 0 <= j < i ==> {
                    &&& (#[trigger] docs@[j]).0@ == governance_docs@[j].0@
                    &&& docs@[j].1@ == file_of(synced_governance_lines(lines(governance_docs@[j].1@), 0, version@))
                },
            decreases governance_docs.len() - i,
        {
            let mut name = String::new();
            push_str(&mut name, governance_docs[i].0.as_str());
            let text = Self::sync_governance_doc(governance_docs[i].1.as_str(), version.as_str());
            docs.push((name, text));
            i = i + 1;
        }
        Ok(VersionSync { version, launcher_manifest: launcher, readme: readme_out, governance_docs: docs })
    }
}

/// A copy of a character vector.
fn copy_chars(v: &Vec<char>) -> (r: Vec<char>)
    ensures
        r@ == v@,
{
    let mut r: Vec<char> = Vec::new();
    let mut i: usize = 0;
    while i < v.len()
        invariant
            i <= v@.len(),
            r@ == v@.take(i as int),
        decreases v.len() - i,
    {
        r.push(v[i]);
        proof {
            assert(v@.take(i + 1) =~= v@.take(i as int).push(v@[i as int]));
        }
        i = i + 1;
    }
    proof {
        assert(v@.take(v@.len() as int) =~= v@);
    }
    r
}

/// The part of `b` containing `c` puts `c` into whatever contains `b`.
pub(crate) proof fn lemma_contains_trans(a: Seq<char>, b: Seq<char>, c: Seq<char>)
    requires
        seq_contains(a, b),
        seq_contains(b, c),
    ensures
        seq_contains(a, c),
{
    let i = choose|i: int| crate::text::occurs_at(a, b, i);
    let j = choose|j: int| crate::text::occurs_at(b, c, j);
    assert(a.subrange(i + j, i + j + c.len()) =~= b.subrange(j, j + c.len()));
    assert(crate::text::occurs_at(a, c, i + j));
}

/// Every line of a file occurs in its text.
pub(crate) proof fn lemma_terminated_contains(ls: Seq<Seq<char>>, i: int)
    requires
        0 <= i < ls.len(),
    ensures
        seq_contains(terminated(ls), ls[i]),
    decreases ls.len(),
{
    let init = terminated(ls.drop_last());
    let whole = terminated(ls);
    if i == ls.len() - 1 {
        assert(whole.subrange(init.len() as int, init.len() + ls[i].len() as int) =~= ls[i]);
        assert(crate::text::occurs_at(whole, ls[i], init.len() as int));
    } else {
        lemma_terminated_contains(ls.drop_last(), i);
        assert(ls.drop_last()[i] == ls[i]);
        let k = choose|k: int| crate::text::occurs_at(init, ls[i], k);
        assert(whole.subrange(k, k + ls[i].len()) =~= init.subrange(k, k + ls[i].len()));
        assert(crate::text::occurs_at(whole, ls[i], k));
    }
}

/// The badge line shows the version badge.
proof fn lemma_badge_line_shows_badge(version: Seq<char>)
    ensures
        seq_contains(badge_line(version), version_badge(version)),
{
    reveal_strlit("![SUSI Version](https://img.shields.io/badge/version-v");
    reveal_strlit("-blue.svg) ![License](https://img.shields.io/badge/license-Apache%202.0-green.svg)");
    reveal_strlit("version-v");
    reveal_strlit("-blue.svg");
    let line = badge_line(version);
    let badge = version_badge(version);
    assert(line.subrange(45, 45 + badge.len() as int) =~= badge);
    assert(crate::text::occurs_at(line, badge, 45));
}

/// A governance document has a version line the sync rewrites: a
/// `version = "` line in its front matter, or a legacy version line
/// outside it (`dashes` counts the `---` lines before `ls`).
pub open spec fn has_version_line(ls: Seq<Seq<char>>, dashes: nat) -> bool
    decreases ls.len(),
{
    if ls.len() == 0 {
        false
    } else {
        let t = trim(ls[0]);
        if t == "---"@ {
            has_version_line(ls.drop_first(), dashes + 1)
        } else {
            ||| (dashes == 1 && seq_starts_with(t, "version = \""@))
            ||| (dashes != 1 && seq_starts_with(t, "* **Current Engine Version**: `v"@))
            ||| has_version_line(ls.drop_first(), dashes)
        }
    }
}

proof fn lemma_synced_governance_has_line(ls: Seq<Seq<char>>, dashes: nat, version: Seq<char>)
    requires
        has_version_line(ls, dashes),
    ensures
        exists|i: int| 0 <= i < synced_governance_lines(ls, dashes, version).len() && {
            let l = #[trigger] synced_governance_lines(ls, dashes, version)[i];
            l == version_line(version) || l == legacy_line(version)
        },
    decreases ls.len(),
{
    let out = synced_governance_lines(ls, dashes, version);
    let t = trim(ls[0]);
    if t == "---"@ {
        lemma_synced_governance_has_line(ls.drop_first(), dashes + 1, version);
        let rest = synced_governance_lines(ls.drop_first(), dashes + 1, version);
        let i = choose|i: int| 0 <= i < rest.len() && {
            let l = #[trigger] rest[i];
            l == version_line(version) || l == legacy_line(version)
        };
        assert(out[i + 1] == rest[i]);
    } else if (dashes == 1 && seq_starts_with(t, "version = \""@)) || (dashes != 1 && seq_starts_with(t, "* **Current Engine Version**: `v"@)) {
        assert(out[0] == version_line(version) || out[0] == legacy_line(version));
    } else {
        lemma_synced_governance_has_line(ls.drop_first(), dashes, version);
        let rest = synced_governance_lines(ls.drop_first(), dashes, version);
        let i = choose|i: int| 0 <= i < rest.len() && {
            let l = #[trigger] rest[i];
            l == version_line(version) || l == legacy_line(version)
        };
        assert(out[i + 1] == rest[i]);
    }
}

/// A version sync makes the alignment check pass: a README that had a
/// version badge line shows the new version's badge, and a governance
/// document that had a version line mentions the new version.
pub proof fn law_sync_aligns_documents(readme: Seq<char>, doc: Seq<char>, version: Seq<char>)
    ensures
        (exists|i: int| 0 <= i < lines(readme).len()
            && seq_contains(#[trigger] lines(readme)[i], "https://img.shields.io/badge/version-v"@))
            ==> seq_contains(file_of(synced_readme_lines(lines(readme), version)), version_badge(version)),
        has_version_line(lines(doc), 0)
            ==> governance_mentions(file_of(synced_governance_lines(lines(doc), 0, version)), version),
{
    if exists|i: int| 0 <= i < lines(readme).len()
        && seq_contains(#[trigger] lines(readme)[i], "https://img.shields.io/badge/version-v"@) {
        let i = choose|i: int| 0 <= i < lines(readme).len()
            && seq_contains(#[trigger] lines(readme)[i], "https://img.shields.io/badge/version-v"@);
        let out = synced_readme_lines(lines(readme), version);
        assert(out[i] == badge_line(version));
        lemma_terminated_contains(out, i);
        lemma_badge_line_shows_badge(version);
        lemma_contains_trans(terminated(out), badge_line(version), version_badge(version));
    }
    if has_version_line(lines(doc), 0) {
        lemma_synced_governance_has_line(lines(doc), 0, version);
        let out = synced_governance_lines(lines(doc), 0, version);
        let i = choose|i: int| 0 <= i < out.len() && {
            let l = #[trigger] out[i];
            l == version_line(version) || l == legacy_line(version)
        };
        lemma_terminated_contains(out, i);
    }
}

/// Stages of a release, in order: type check (default features, then
/// the host's GPU feature), compliance audit, tests, lints (same two
/// feature sets), smoke missions (`identity`, `status`, `models`), version
/// sync, push; then done.
pub open spec fn release_stage_count() -> nat {
    11
}

/// What a release stage runs.
#[derive(Debug, Clone)]
pub enum ReleaseAction {
    /// Run a program with arguments and extra environment; `clamp_cuda`
    /// asks for the CUDA version override when the toolchain needs one.
    Command { program: String, args: Vec<String>, env: Vec<(String, String)>, clamp_cuda: bool },
    /// Run the compliance audit for a release.
    ComplianceAudit,
    /// Synchronise the version manifests.
    VersionSync,
    /// Nothing left to run.
    Finished,
}

/// How a stage went.
#[derive(Debug, Clone)]
pub enum StageResult {
    /// It succeeded.
    Passed,
    /// Its command exited unsuccessfully, with this standard error.
    CommandFailed(String),
    /// It could not run, or returned this error.
    Error(EaiError),
}

/// What follows a stage.
#[derive(Debug, Clone)]
pub enum ReleaseStep {
    /// Run the next stage.
    Continue,
    /// The release is aborted with this error.
    Aborted(EaiError),
    /// Every stage passed.
    Complete(String),
}

/// The arguments of a cargo stage's command.
pub open spec fn cargo_args(stage: nat, gpu: Seq<char>) -> Seq<Seq<char>> {
    if stage == 0 {
        seq!["check"@, "--all-targets"@]
    } else if stage == 1 {
        seq!["check"@, "--all-targets"@, "--features"@, gpu]
    } else if stage == 3 {
        seq!["test"@]
    } else if stage == 4 {
        seq!["clippy"@, "--all-targets"@, "--"@, "-D"@, "warnings"@]
    } else if stage == 5 {
        seq!["clippy"@, "--all-targets"@, "--features"@, gpu, "--"@, "-D"@, "warnings"@]
    } else if stage == 6 {
        seq!["run"@, "--quiet"@, "--"@, "identity"@]
    } else if stage == 7 {
        seq!["run"@, "--quiet"@, "--"@, "status"@]
    } else {
        seq!["run"@, "--quiet"@, "--"@, "models"@]
    }
}

/// The error that aborts a stage whose command failed.
pub open spec fn stage_failure(stage: nat, stderr: Seq<char>) -> Seq<char> {
    if stage <= 1 {
        "Release aborted: cargo check failed."@
    } else if stage == 3 {
        "Release aborted: Native tests failed."@
    } else if stage == 4 || stage == 5 {
        "Release aborted: Linting failed."@
    } else if stage == 6 {
        "Release aborted: Ephemeral mission 'identity' failed."@
    } else if stage == 7 {
        "Release aborted: Ephemeral mission 'status' failed."@
    } else if stage == 8 {
        "Release aborted: Ephemeral mission 'models' failed."@
    } else {
        "Release, tests, and sync succeeded, but git push failed:\n"@ + stderr
    }
}

/// The gated release sequence.
#[derive(Debug, Clone)]
pub struct ReleasePipeline {
    /// The GPU backend feature that builds on this host.
    pub gpu_feature: String,
    /// The stage about to run.
    pub stage: usize,
}

fn strings(v: Vec<&str>) -> (r: Vec<String>)
    ensures
        r@.map_values(|s: String| s@) == v@.map_values(|s: &str| s@),
{
    let mut r: Vec<String> = Vec::new();
    let mut i: usize = 0;
    while i < v.len()
        invariant
            i <= v@.len(),
            r@.len() == i,
            forall|j: int| 0 <= j < i ==> #[trigger] r@[j]@ == v@[j]@,
        decreases v.len() - i,
    {
        let mut s = String::new();
        push_str(&mut s, v[i]);
        r.push(s);
        i = i + 1;
    }
    proof {
        assert(r@.map_values(|s: String| s@) =~= v@.map_values(|s: &str| s@));
    }
    r
}

impl ReleasePipeline {
    /// A release about to type-check; the host's GPU feature is `metal` on
    /// macOS and `cuda` elsewhere.
    pub fn new(is_macos: bool) -> (r: Self)
        ensures
            r.stage == 0,
            r.gpu_feature@ == if is_macos { "metal"@ } else { "cuda"@ },
    {
        let mut g = String::new();
        if is_macos {
            push_str(&mut g, "metal");
        } else {
            push_str(&mut g, "cuda");
        }
        ReleasePipeline { gpu_feature: g, stage: 0 }
    }

    /// What the current stage runs.
    pub fn next_action(&self) -> (r: ReleaseAction)
        ensures
            self.stage == 2 ==> r is ComplianceAudit,
            self.stage == 9 ==> r is VersionSync,
            self.stage >= 11 ==> r is Finished,
            self.stage == 10 ==> (r matches ReleaseAction::Command { program, args, env, clamp_cuda }
                && program@ == "git"@ && args@.map_values(|s: String| s@) == seq!["push"@] && !clamp_cuda
                && env@.map_values(|e: (String, String)| (e.0@, e.1@)) == seq![("GIT_TERMINAL_PROMPT"@, "0"@)]),
            (self.stage <= 8 && self.stage != 2) ==> (r matches ReleaseAction::Command { program, args, env, clamp_cuda }
                && env@.len() == 0
                && program@ == "cargo"@
                && args@.map_values(|s: String| s@) == cargo_args(self.stage as nat, self.gpu_feature@)
                && clamp_cuda == ((self.stage == 1 || self.stage == 5) && self.gpu_feature@ == "cuda"@)),
    {
        let stage = self.stage;
        if stage == 2 {
            return ReleaseAction::ComplianceAudit;
        }
        if stage == 9 {
            return ReleaseAction::VersionSync;
        }
        if stage >= 11 {
            return ReleaseAction::Finished;
        }
        if stage == 10 {
            let mut p = String::new();
            push_str(&mut p, "git");
            let mut key = String::new();
            push_str(&mut key, "GIT_TERMINAL_PROMPT");
            let mut value = String::new();
            push_str(&mut value, "0");
            let mut env: Vec<(String, String)> = Vec::new();
            env.push((key, value));
            proof {
                assert(env@.map_values(|e: (String, String)| (e.0@, e.1@)) =~= seq![("GIT_TERMINAL_PROMPT"@, "0"@)]);
            }
            return ReleaseAction::Command { program: p, args: strings(vec!["push"]), env, clamp_cuda: false };
        }
        let mut program = String::new();
        push_str(&mut program, "cargo");
        let g = self.gpu_feature.as_str();
        let args = if stage == 0 {
            strings(vec!["check", "--all-targets"])
        } else if stage == 1 {
            strings(vec!["check", "--all-targets", "--features", g])
        } else if stage == 3 {
            strings(vec!["test"])
        } else if stage == 4 {
            strings(vec!["clippy", "--all-targets", "--", "-D", "warnings"])
        } else if stage == 5 {
            strings(vec!["clippy", "--all-targets", "--features", g, "--", "-D", "warnings"])
        } else if stage == 6 {
            strings(vec!["run", "--quiet", "--", "identity"])
        } else if stage == 7 {
            strings(vec!["run", "--quiet", "--", "status"])
        } else {
            strings(vec!["run", "--quiet", "--", "models"])
        };
        proof {
            assert(args@.map_values(|s: String| s@) =~= cargo_args(stage as nat, self.gpu_feature@));
        }
        let clamp_cuda = (stage == 1 || stage == 5) && equals_str(&chars_of(g), "cuda");
        ReleaseAction::Command { program, args, env: Vec::new(), clamp_cuda }
    }

    /// Records how the current stage went: a passed stage moves on (the
    /// push completes the release); a failed command aborts with its
    /// stage's message; an error aborts as it is.
    pub fn record(&mut self, result: StageResult) -> (r: ReleaseStep)
        requires
            old(self).stage < 11,
        ensures
            final(self).gpu_feature == old(self).gpu_feature,
            match result {
                StageResult::Passed => {
                    &&& final(self).stage == old(self).stage + 1
                    &&& old(self).stage == 10 ==> (r matches ReleaseStep::Complete(m) && m@
                        == "Motion Rule complete: check, tests, audit, lints, smoke-tests, sync, and push all succeeded. Substrate deployed."@)
                    &&& old(self).stage != 10 ==> r is Continue
                },
                StageResult::CommandFailed(stderr) => final(self).stage == old(self).stage
                    && (r matches ReleaseStep::Aborted(e) && e == EaiError::Process(e->Process_0)
                    && e->Process_0@ == stage_failure(old(self).stage as nat, stderr@)),
                StageResult::Error(e) => final(self).stage == old(self).stage
                    && (r matches ReleaseStep::Aborted(f) && f == e),
            },
    {
        match result {
            StageResult::Passed => {
                self.stage = self.stage + 1;
                if self.stage == 11 {
                    let mut m = String::new();
                    push_str(&mut m, "Motion Rule complete: check, tests, audit, lints, smoke-tests, sync, and push all succeeded. Substrate deployed.");
                    ReleaseStep::Complete(m)
                } else {
                    ReleaseStep::Continue
                }
            },
            StageResult::Error(e) => ReleaseStep::Aborted(e),
            StageResult::CommandFailed(stderr) => {
                let stage = self.stage;
                let msg = if stage <= 1 {
                    "Release aborted: cargo check failed."
                } else if stage == 3 {
                    "Release aborted: Native tests failed."
                } else if stage == 4 || stage == 5 {
                    "Release aborted: Linting failed."
                } else if stage == 6 {
                    "Release aborted: Ephemeral mission 'identity' failed."
                } else if stage == 7 {
                    "Release aborted: Ephemeral mission 'status' failed."
                } else if stage == 8 {
                    "Release aborted: Ephemeral mission 'models' failed."
                } else {
                    "Release, tests, and sync succeeded, but git push failed:\n"
                };
                let mut m = String::new();
                push_str(&mut m, msg);
                if stage == 2 || stage > 8 {
                    push_str(&mut m, stderr.as_str());
                }
                ReleaseStep::Aborted(EaiError::process(m.as_str()))
            },
        }
    }
}

} // verus!
