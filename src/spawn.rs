//! Which program opens a file, and how a typed command line is split into
//! a program and its arguments.
use vstd::prelude::*;
use crate::path::{FsPath, path_text, path_to_string};
use crate::text::{white_space, has_prefix, has_suffix, copy_of, chars_of, string_of, ends_with, starts_with, same_text, push_char};

verus! {

/// The words of a text: its longest runs of characters without white
/// space, in order.
pub open spec fn whitespace_words(s: Seq<char>) -> Seq<Seq<char>>
    decreases s.len(),
{
    if s.len() == 0 {
        Seq::empty()
    } else {
        let words = whitespace_words(s.drop_last());
        if white_space(s.last()) {
            words
        } else if s.len() >= 2 && !white_space(s[s.len() - 2]) {
            words.drop_last().push(words.last().push(s.last()))
        } else {
            words.push(seq![s.last()])
        }
    }
}

/// Relies on `str::split_whitespace`: the words are the runs of characters
/// between White_Space characters, none of them empty.
#[verifier::external_body]
fn split_whitespace(s: &str) -> (r: Vec<String>)
    ensures
        r@.len() == whitespace_words(s@).len(),
        forall|i: int| 0 <= i < r@.len() ==> #[trigger] r@[i]@ == whitespace_words(s@)[i],
{
    s.split_whitespace().map(|w| w.to_string()).collect()
}

/// A command to open a file: the program, its arguments with `@` standing
/// for the file, and whether it runs beside the file manager.
pub struct SpawnRule {
    pub rule: String,
    pub is_external: bool,
}

pub enum SpawnFile {
    Extension(String),
    ExactName(String),
}

pub struct SpawnPattern {
    pub file: SpawnFile,
    pub rule: SpawnRule,
}

pub open spec fn first_or_empty(ws: Seq<Seq<char>>) -> Seq<char> {
    if ws.len() > 0 { ws[0] } else { Seq::empty() }
}

/// The arguments of a rule for a file: each `@` becomes the file.
pub open spec fn rule_args(ws: Seq<Seq<char>>, file_name: Seq<char>) -> Seq<Seq<char>> {
    if ws.len() == 0 {
        Seq::empty()
    } else {
        ws.drop_first().map_values(|w: Seq<char>| if w == seq!['@'] { file_name } else { w })
    }
}

pub open spec fn texts(v: Seq<String>) -> Seq<Seq<char>> {
    v.map_values(|s: String| s@)
}

/// The program, its arguments and whether it runs beside the file
/// manager, from the words of a rule, to open `file_name`.
pub fn rule_from_words(parts: &Vec<String>, file_name: &str, is_external: bool) -> (r: (String, Vec<String>, bool))
    ensures
        r.0@ == first_or_empty(texts(parts@)),
        texts(r.1@) == rule_args(texts(parts@), file_name@),
        r.2 == is_external,
{
    let placeholder = "@";
    proof {
        reveal_strlit("@");
        assert(placeholder@ =~= seq!['@']);
    }
    let mut args: Vec<String> = Vec::new();
    if parts.len() == 0 {
        assert(texts(args@) =~= rule_args(texts(parts@), file_name@));
        return (String::new(), args, is_external);
    }
    let ghost ws = texts(parts@);
    let mut i: usize = 1;
    while i < parts.len()
        invariant
            placeholder@ == seq!['@'],
            ws == texts(parts@),
            parts@.len() == ws.len(),
            forall|k: int| 0 <= k < parts@.len() ==> #[trigger] parts@[k]@ == ws[k],
            1 <= i <= parts@.len(),
            texts(args@) == ws.subrange(1, i as int).map_values(|w: Seq<char>| if w == seq!['@'] { file_name@ } else { w }),
        decreases parts@.len() - i,
    {
        let ghost prev = args@;
        let arg = if same_text(parts[i].as_str(), placeholder) {
            copy_of(file_name)
        } else {
            copy_of(parts[i].as_str())
        };
        args.push(arg);
        proof {
            assert(parts@[i as int]@ == ws[i as int]);
            assert(texts(args@) =~= texts(prev).push(arg@));
            assert(ws.subrange(1, i + 1) =~= ws.subrange(1, i as int).push(ws[i as int]));
        }
        i = i + 1;
    }
    assert(ws.subrange(1, ws.len() as int) =~= ws.drop_first());
    (copy_of(parts[0].as_str()), args, is_external)
}

impl SpawnRule {
    /// The program, its arguments and whether it runs beside the file
    /// manager, to open `file_name`.
    pub fn generate(&self, file_name: &str) -> (r: (String, Vec<String>, bool))
        ensures
            r.0@ == first_or_empty(whitespace_words(self.rule@)),
            texts(r.1@) == rule_args(whitespace_words(self.rule@), file_name@),
            r.2 == self.is_external,
    {
        let parts = split_whitespace(self.rule.as_str());
        assert(texts(parts@) =~= whitespace_words(self.rule@));
        rule_from_words(&parts, file_name, self.is_external)
    }
}

impl SpawnPattern {
    /// A rule for files with the extension.
    pub fn new_ext(ext: &str, rule: &str, is_external: bool) -> (r: SpawnPattern)
        ensures
            r.file is Extension,
            r.file->Extension_0@ == ext@,
            r.rule.rule@ == rule@,
            r.rule.is_external == is_external,
    {
        SpawnPattern {
            file: SpawnFile::Extension(copy_of(ext)),
            rule: SpawnRule { rule: copy_of(rule), is_external },
        }
    }

    /// A rule for files with exactly this name.
    pub fn new_exact(name: &str, rule: &str, is_external: bool) -> (r: SpawnPattern)
        ensures
            r.file is ExactName,
            r.file->ExactName_0@ == name@,
            r.rule.rule@ == rule@,
            r.rule.is_external == is_external,
    {
        SpawnPattern {
            file: SpawnFile::ExactName(copy_of(name)),
            rule: SpawnRule { rule: copy_of(rule), is_external },
        }
    }
}

pub ghost struct PatternView {
    pub is_extension: bool,
    pub text: Seq<char>,
    pub rule: Seq<char>,
    pub is_external: bool,
}

pub open spec fn pattern_view(p: SpawnPattern) -> PatternView {
    PatternView {
        is_extension: p.file is Extension,
        text: match p.file {
            SpawnFile::Extension(e) => e@,
            SpawnFile::ExactName(n) => n@,
        },
        rule: p.rule.rule@,
        is_external: p.rule.is_external,
    }
}

pub open spec fn pattern_views(ps: Seq<SpawnPattern>) -> Seq<PatternView> {
    ps.map_values(|p: SpawnPattern| pattern_view(p))
}

pub open spec fn rules_for(names: Seq<Seq<char>>, rule: Seq<char>, is_extension: bool, is_external: bool) -> Seq<PatternView> {
    names.map_values(|n: Seq<char>| PatternView { is_extension, text: n, rule, is_external })
}

/// The rules for opening files: text files in the editor, waited for;
/// video and audio, documents and images in viewers beside the file
/// manager.
pub open spec fn spawn_table() -> Seq<PatternView> {
    rules_for(crate::right_column::text_extensions_spec(), "vim @"@, true, false)
        + rules_for(crate::right_column::text_exact_names_spec(), "vim @"@, false, false)
        + rules_for(seq!["mkv"@, "avi"@, "mp4"@, "mp3"@, "m4b"@], "vlc @"@, true, true)
        + rules_for(seq!["pdf"@, "djvu"@], "zathura @"@, true, true)
        + rules_for(seq!["jpg"@, "jpeg"@, "png"@], "rifle_sxiv @"@, true, true)
}

fn add_rules(patterns: &mut Vec<SpawnPattern>, names: Vec<&'static str>, rule: &str, is_extension: bool, is_external: bool)
    ensures
        pattern_views(final(patterns)@) == pattern_views(old(patterns)@) + rules_for(
            crate::right_column::strs_view(names@), rule@, is_extension, is_external),
{
    let ghost start = pattern_views(patterns@);
    let mut i: usize = 0;
    while i < names.len()
        invariant
            i <= names@.len(),
            pattern_views(patterns@) == start + rules_for(
                crate::right_column::strs_view(names@).subrange(0, i as int), rule@, is_extension, is_external),
        decreases names@.len() - i,
    {
        let ghost prev = patterns@;
        let p = if is_extension {
            SpawnPattern::new_ext(names[i], rule, is_external)
        } else {
            SpawnPattern::new_exact(names[i], rule, is_external)
        };
        patterns.push(p);
        proof {
            assert(pattern_views(patterns@) =~= pattern_views(prev).push(pattern_view(p)));
            let sv = crate::right_column::strs_view(names@);
            assert(sv.subrange(0, i + 1) =~= sv.subrange(0, i as int).push(sv[i as int]));
            assert(rules_for(sv.subrange(0, i + 1), rule@, is_extension, is_external) =~= rules_for(
                sv.subrange(0, i as int), rule@, is_extension, is_external).push(pattern_view(p)));
        }
        i = i + 1;
    }
    assert(crate::right_column::strs_view(names@).subrange(0, i as int) =~= crate::right_column::strs_view(names@));
}

/// The table of rules for opening files.
pub fn generate_spawn_patterns() -> (r: Vec<SpawnPattern>)
    ensures
        pattern_views(r@) == spawn_table(),
{
    let mut patterns: Vec<SpawnPattern> = Vec::new();
    let external = true;
    let not_external = !external;
    add_rules(&mut patterns, crate::right_column::text_extensions(), "vim @", true, not_external);
    add_rules(&mut patterns, crate::right_column::text_exact_names(), "vim @", false, not_external);
    let media = vec!["mkv", "avi", "mp4", "mp3", "m4b"];
    add_rules(&mut patterns, media, "vlc @", true, external);
    let documents = vec!["pdf", "djvu"];
    add_rules(&mut patterns, documents, "zathura @", true, external);
    let images = vec!["jpg", "jpeg", "png"];
    add_rules(&mut patterns, images, "rifle_sxiv @", true, external);
    proof {
        assert(crate::right_column::strs_view(media@) =~= seq!["mkv"@, "avi"@, "mp4"@, "mp3"@, "m4b"@]);
        assert(crate::right_column::strs_view(documents@) =~= seq!["pdf"@, "djvu"@]);
        assert(crate::right_column::strs_view(images@) =~= seq!["jpg"@, "jpeg"@, "png"@]);
        assert(pattern_views(patterns@) =~= spawn_table());
    }
    patterns
}

/// A letter in lower case where it is an ASCII capital.
pub open spec fn ascii_lower_char(c: char) -> char {
    if 'A' <= c && c <= 'Z' { ((c as u32) + 32) as char } else { c }
}

pub open spec fn ascii_lower(s: Seq<char>) -> Seq<char> {
    s.map_values(|c: char| ascii_lower_char(c))
}

fn to_ascii_lowercase(s: &str) -> (r: String)
    ensures
        r@ == ascii_lower(s@),
{
    let cs = chars_of(s);
    let mut out: Vec<char> = Vec::new();
    let mut i: usize = 0;
    while i < cs.len()
        invariant
            cs@ == s@,
            i <= cs@.len(),
            out@ == ascii_lower(s@).subrange(0, i as int),
        decreases cs@.len() - i,
    {
        let c = cs[i];
        let l = if 'A' <= c && c <= 'Z' { ((c as u8) + 32) as char } else { c };
        out.push(l);
        assert(out@ =~= ascii_lower(s@).subrange(0, i + 1));
        i = i + 1;
    }
    assert(ascii_lower(s@).subrange(0, i as int) =~= ascii_lower(s@));
    string_of(&out)
}

/// Whether a rule applies to a file: by its extension, in any ASCII case,
/// or by its exact name.
pub open spec fn pattern_matches(p: PatternView, file_name: Seq<char>) -> bool {
    if p.is_extension {
        has_suffix(ascii_lower(file_name), p.text)
    } else {
        file_name == p.text
    }
}

/// The program, its arguments and whether it runs beside the file
/// manager, for the first rule that applies to the file; `None` if none
/// does.
pub fn spawn_rule_for(full_path: &FsPath, spawn_patterns: &Vec<SpawnPattern>) -> (r: Option<(String, Vec<String>, bool)>)
    requires
        full_path@.len() > 0,
    ensures
        match r {
            None => forall|k: int| 0 <= k < spawn_patterns@.len()
                ==> !pattern_matches(#[trigger] pattern_view(spawn_patterns@[k]), full_path@.last()),
            Some(t) => exists|k: int| {
                &&& 0 <= k < spawn_patterns@.len()
                &&& pattern_matches(pattern_view(spawn_patterns@[k]), full_path@.last())
                &&& forall|j: int| 0 <= j < k ==> !pattern_matches(#[trigger] pattern_view(spawn_patterns@[j]), full_path@.last())
                &&& t.0@ == first_or_empty(whitespace_words(spawn_patterns@[k].rule.rule@))
                &&& texts(t.1@) == rule_args(whitespace_words(spawn_patterns@[k].rule.rule@), path_text(full_path@))
                &&& t.2 == spawn_patterns@[k].rule.is_external
            },
        },
{
    let file_name = crate::path::file_name(full_path);
    let lower = to_ascii_lowercase(file_name.as_str());
    let full = path_to_string(full_path);
    let mut i: usize = 0;
    while i < spawn_patterns.len()
        invariant
            file_name@ == full_path@.last(),
            lower@ == ascii_lower(file_name@),
            full@ == path_text(full_path@),
            i <= spawn_patterns@.len(),
            forall|j: int| 0 <= j < i ==> !pattern_matches(#[trigger] pattern_view(spawn_patterns@[j]), full_path@.last()),
        decreases spawn_patterns@.len() - i,
    {
        let p = &spawn_patterns[i];
        let hit = match &p.file {
            SpawnFile::Extension(ext) => ends_with(lower.as_str(), ext.as_str()),
            SpawnFile::ExactName(name) => same_text(file_name.as_str(), name.as_str()),
        };
        if hit {
            return Some(p.rule.generate(full.as_str()));
        }
        i = i + 1;
    }
    None
}

/// The arguments that a word of a command line gives: a single-dash
/// group of flags stands for one flag per letter.
pub open spec fn word_args(w: Seq<char>) -> Seq<Seq<char>> {
    if has_prefix(w, seq!['-']) && !has_prefix(w, seq!['-', '-']) {
        w.drop_first().map_values(|c: char| seq!['-', c])
    } else {
        seq![w]
    }
}

pub open spec fn command_args(ws: Seq<Seq<char>>) -> Seq<Seq<char>>
    decreases ws.len(),
{
    if ws.len() == 0 { Seq::empty() } else { command_args(ws.drop_last()) + word_args(ws.last()) }
}

/// The program and its arguments from the words of a command line, with
/// each single-dash group of flags spelled out one flag at a time.
pub fn app_and_args_from_words(parts: &Vec<String>) -> (r: (String, Vec<String>))
    ensures
        r.0@ == first_or_empty(texts(parts@)),
        texts(r.1@) == if parts@.len() == 0 {
            Seq::<Seq<char>>::empty()
        } else {
            command_args(texts(parts@).drop_first())
        },
{
    let mut args: Vec<String> = Vec::new();
    if parts.len() == 0 {
        assert(texts(args@) =~= Seq::<Seq<char>>::empty());
        return (String::new(), args);
    }
    let ghost ws = texts(parts@);
    let dash = "-";
    let dashes = "--";
    proof {
        reveal_strlit("-");
        reveal_strlit("--");
        assert(dash@ =~= seq!['-']);
        assert(dashes@ =~= seq!['-', '-']);
    }
    let mut i: usize = 1;
    while i < parts.len()
        invariant
            dash@ == seq!['-'],
            dashes@ == seq!['-', '-'],
            parts@.len() == ws.len(),
            forall|k: int| 0 <= k < parts@.len() ==> #[trigger] parts@[k]@ == ws[k],
            1 <= i <= parts@.len(),
            texts(args@) == command_args(ws.subrange(1, i as int)),
        decreases parts@.len() - i,
    {
        let part = &parts[i];
        let ghost before = texts(args@);
        proof {
            assert(part@ == ws[i as int]);
            assert(ws.subrange(1, i + 1).drop_last() =~= ws.subrange(1, i as int));
        }
        if starts_with(part.as_str(), dash) && !starts_with(part.as_str(), dashes) {
            let cs = chars_of(part.as_str());
            let mut j: usize = 1;
            while j < cs.len()
                invariant
                    cs@ == part@,
                    1 <= j <= cs@.len(),
                    texts(args@) == before + part@.drop_first().subrange(0, j - 1).map_values(|c: char| seq!['-', c]),
                decreases cs@.len() - j,
            {
                let ghost prev = args@;
                let mut arg = String::new();
                push_char(&mut arg, '-');
                push_char(&mut arg, cs[j]);
                args.push(arg);
                proof {
                    assert(arg@ =~= seq!['-', cs@[j as int]]);
                    assert(texts(args@) =~= texts(prev).push(arg@));
                    assert(part@.drop_first().subrange(0, j as int) =~= part@.drop_first().subrange(0, j - 1).push(cs@[j as int]));
                }
                j = j + 1;
            }
            proof {
                assert(part@.drop_first().subrange(0, j - 1) =~= part@.drop_first());
                assert(texts(args@) =~= before + word_args(part@));
            }
        } else {
            let ghost prev = args@;
            let a = copy_of(part.as_str());
            args.push(a);
            proof {
                assert(texts(args@) =~= texts(prev).push(a@));
                assert(texts(args@) =~= before + word_args(part@));
            }
        }
        i = i + 1;
    }
    assert(ws.subrange(1, ws.len() as int) =~= ws.drop_first());
    (copy_of(parts[0].as_str()), args)
}

/// Splits a command line into its program and its arguments, with each
/// single-dash group of flags spelled out one flag at a time.
pub fn split_into_app_and_args(text: &str) -> (r: (String, Vec<String>))
    ensures
        r.0@ == first_or_empty(whitespace_words(text@)),
        texts(r.1@) == if whitespace_words(text@).len() == 0 {
            Seq::<Seq<char>>::empty()
        } else {
            command_args(whitespace_words(text@).drop_first())
        },
{
    let parts = split_whitespace(text);
    assert(texts(parts@) =~= whitespace_words(text@));
    app_and_args_from_words(&parts)
}

} // verus!
