//! The texts of the interface in the languages it speaks.
//!
//! A language's texts come as a JSON object that maps keys to texts. A text
//! may hold placeholders: `{0}`, `{1}` and so on for the argument of that
//! number, and `{}` for the next argument in turn.

use vstd::prelude::*;
use crate::digits::{decimal, decimal_string};
use crate::text::{chars_of, matches_at, occurs_at};

verus! {

/// What a JSON text holds when it is read as an object whose values are
/// all strings: its entries, in the order of their keys; nothing where the
/// text is no such object.
pub uninterp spec fn json_entries(content: Seq<char>) -> Option<Seq<(Seq<char>, Seq<char>)>>;

/// The entries of a table as pairs of texts.
pub open spec fn entry_texts(v: Seq<(String, String)>) -> Seq<(Seq<char>, Seq<char>)> {
    Seq::new(v.len(), |i: int| (v[i].0@, v[i].1@))
}

/// The view of an optional table.
pub open spec fn opt_entries(t: Option<Vec<(String, String)>>) -> Option<
    Seq<(Seq<char>, Seq<char>)>,
> {
    match t {
        Some(v) => Some(entry_texts(v@)),
        None => None,
    }
}

/// Reads `content` with `serde_json::from_str` as a map from strings to
/// strings, ordered by key. The result is named, not described: what
/// serde_json accepts as such an object, and what it makes of it, is taken
/// as it is.
#[verifier::external_body]
fn parse_entries(content: &str) -> (r: Option<Vec<(String, String)>>)
    ensures
        opt_entries(r) == json_entries(content@),
{
    match serde_json::from_str::<std::collections::BTreeMap<String, String>>(content) {
        Ok(map) => Some(map.into_iter().collect()),
        Err(_) => None,
    }
}

/// One language: its code and its texts by key.
#[derive(Debug)]
pub struct LanguageTable {
    pub code: String,
    pub entries: Vec<(String, String)>,
}

/// A `LanguageTable` with its texts as character sequences.
pub struct LanguageView {
    pub code: Seq<char>,
    pub entries: Seq<(Seq<char>, Seq<char>)>,
}

impl View for LanguageTable {
    type V = LanguageView;

    open spec fn view(&self) -> LanguageView {
        LanguageView { code: self.code@, entries: entry_texts(self.entries@) }
    }
}

/// The views of a list of languages.
pub open spec fn language_views(v: Seq<LanguageTable>) -> Seq<LanguageView> {
    Seq::new(v.len(), |i: int| v[i]@)
}

/// The text that the first entry with `key` holds, if there is one.
pub open spec fn lookup(entries: Seq<(Seq<char>, Seq<char>)>, key: Seq<char>) -> Option<
    Seq<char>,
>
    decreases entries.len(),
{
    if entries.len() == 0 {
        None
    } else if entries[0].0 == key {
        Some(entries[0].1)
    } else {
        lookup(entries.drop_first(), key)
    }
}

/// The texts of the first language with `code`, if there is one.
pub open spec fn table_for(languages: Seq<LanguageView>, code: Seq<char>) -> Option<
    Seq<(Seq<char>, Seq<char>)>,
>
    decreases languages.len(),
{
    if languages.len() == 0 {
        None
    } else if languages[0].code == code {
        Some(languages[0].entries)
    } else {
        table_for(languages.drop_first(), code)
    }
}

/// The text for `key` in the language `code`, if the language is known and
/// has one.
pub open spec fn text_in(languages: Seq<LanguageView>, code: Seq<char>, key: Seq<char>) -> Option<
    Seq<char>,
> {
    match table_for(languages, code) {
        Some(entries) => lookup(entries, key),
        None => None,
    }
}

/// The languages that the two JSON texts give: English and Russian, each
/// where its text could be read; where neither could, English with four
/// texts that are always there.
pub open spec fn loaded(
    en: Option<Seq<(Seq<char>, Seq<char>)>>,
    ru: Option<Seq<(Seq<char>, Seq<char>)>>,
) -> Seq<LanguageView> {
    match (en, ru) {
        (Some(e), Some(r)) => seq![
            LanguageView { code: "en"@, entries: e },
            LanguageView { code: "ru"@, entries: r },
        ],
        (Some(e), None) => seq![LanguageView { code: "en"@, entries: e }],
        (None, Some(r)) => seq![LanguageView { code: "ru"@, entries: r }],
        (None, None) => seq![
            LanguageView {
                code: "en"@,
                entries: seq![
                    ("workspaces"@, "Workspaces"@),
                    ("language"@, "Language"@),
                    ("english"@, "English"@),
                    ("russian"@, "Russian"@),
                ],
            },
        ],
    }
}

/// `s` with `with` in the place of every `pattern`, found from the left,
/// none overlapping another.
pub open spec fn replaced(s: Seq<char>, pattern: Seq<char>, with: Seq<char>) -> Seq<char>
    decreases s.len(),
{
    if s.len() == 0 || pattern.len() == 0 {
        s
    } else if occurs_at(s, pattern, 0) {
        with + replaced(s.skip(pattern.len() as int), pattern, with)
    } else {
        seq![s[0]] + replaced(s.drop_first(), pattern, with)
    }
}

/// `s` with `with` in the place of the first `pattern`; none where `s`
/// holds no `pattern`.
pub open spec fn first_replaced(s: Seq<char>, pattern: Seq<char>, with: Seq<char>) -> Option<
    Seq<char>,
>
    decreases s.len(),
{
    if occurs_at(s, pattern, 0) {
        Some(with + s.skip(pattern.len() as int))
    } else if s.len() == 0 {
        None
    } else {
        match first_replaced(s.drop_first(), pattern, with) {
            Some(rest) => Some(seq![s[0]] + rest),
            None => None,
        }
    }
}

/// The placeholder for the argument in position `i`.
pub open spec fn numbered(i: nat) -> Seq<char> {
    "{"@ + decimal(i) + "}"@
}

/// `s` with each of the first `n` arguments in the place of the placeholder
/// of its number.
pub open spec fn numbered_filled(s: Seq<char>, args: Seq<Seq<char>>, n: nat) -> Seq<char>
    decreases n,
{
    if n == 0 || n > args.len() {
        s
    } else {
        replaced(numbered_filled(s, args, (n - 1) as nat), numbered((n - 1) as nat), args[n - 1])
    }
}

/// `s` with the arguments from position `from` on in the places of the
/// placeholders `{}`, one after another from the left, until `s` holds no
/// placeholder more.
pub open spec fn next_filled(s: Seq<char>, args: Seq<Seq<char>>, from: nat) -> Seq<char>
    decreases args.len() - from,
{
    if from >= args.len() {
        s
    } else {
        match first_replaced(s, "{}"@, args[from as int]) {
            Some(t) => next_filled(t, args, from + 1),
            None => s,
        }
    }
}

/// A text with its placeholders filled by the arguments.
pub open spec fn formatted(template: Seq<char>, args: Seq<Seq<char>>) -> Seq<char> {
    next_filled(numbered_filled(template, args, args.len()), args, 0)
}

proof fn lemma_replaced_run(s: Seq<char>, pattern: Seq<char>, with: Seq<char>, k: int)
    requires
        pattern.len() > 0,
        0 <= k <= s.len(),
        forall|j: int| 0 <= j < k ==> !occurs_at(s, pattern, j),
    ensures
        replaced(s, pattern, with) == s.take(k) + replaced(s.skip(k), pattern, with),
    decreases k,
{
    if k == 0 {
        assert(s.skip(0) =~= s);
        assert(s.take(0) + replaced(s, pattern, with) =~= replaced(s, pattern, with));
    } else {
        let t = s.drop_first();
        assert forall|j: int| 0 <= j < k - 1 implies !occurs_at(t, pattern, j) by {
            assert(!occurs_at(s, pattern, j + 1));
            if occurs_at(t, pattern, j) {
                assert(t.subrange(j, j + pattern.len()) =~= s.subrange(
                    j + 1,
                    j + 1 + pattern.len(),
                ));
            }
        }
        lemma_replaced_run(t, pattern, with, k - 1);
        assert(!occurs_at(s, pattern, 0));
        assert(t.skip(k - 1) =~= s.skip(k));
        assert(seq![s[0]] + (t.take(k - 1) + replaced(s.skip(k), pattern, with)) =~= s.take(k)
            + replaced(s.skip(k), pattern, with));
    }
}

proof fn lemma_first_replaced_run(s: Seq<char>, pattern: Seq<char>, with: Seq<char>, k: int)
    requires
        0 <= k <= s.len(),
        forall|j: int| 0 <= j < k ==> !occurs_at(s, pattern, j),
    ensures
        first_replaced(s, pattern, with) == match first_replaced(s.skip(k), pattern, with) {
            Some(rest) => Some(s.take(k) + rest),
            None => None,
        },
    decreases k,
{
    if k == 0 {
        assert(s.skip(0) =~= s);
        match first_replaced(s, pattern, with) {
            Some(rest) => {
                assert(s.take(0) + rest =~= rest);
            },
            None => {},
        }
    } else {
        let t = s.drop_first();
        assert forall|j: int| 0 <= j < k - 1 implies !occurs_at(t, pattern, j) by {
            assert(!occurs_at(s, pattern, j + 1));
            if occurs_at(t, pattern, j) {
                assert(t.subrange(j, j + pattern.len()) =~= s.subrange(
                    j + 1,
                    j + 1 + pattern.len(),
                ));
            }
        }
        lemma_first_replaced_run(t, pattern, with, k - 1);
        assert(!occurs_at(s, pattern, 0));
        assert(t.skip(k - 1) =~= s.skip(k));
        match first_replaced(s.skip(k), pattern, with) {
            Some(rest) => {
                assert(seq![s[0]] + (t.take(k - 1) + rest) =~= s.take(k) + rest);
            },
            None => {},
        }
    }
}

/// `s` with `with` in the place of every `pattern`.
pub fn replace_all(s: &str, pattern: &str, with: &str) -> (r: String)
    ensures
        r@ == replaced(s@, pattern@, with@),
{
    let v = chars_of(s);
    let p = chars_of(pattern);
    if p.len() == 0 || v.len() == 0 {
        return s.to_owned();
    }
    let n = v.len();
    let mut out = String::new();
    let mut start: usize = 0;
    let mut i: usize = 0;
    proof {
        assert(v@.skip(0) =~= v@);
        assert(out@ + replaced(v@.skip(0), p@, with@) =~= replaced(v@, p@, with@));
    }
    while i < n
        invariant
            start <= i <= n == v.len(),
            v@ == s@,
            p@ == pattern@,
            p.len() > 0,
            forall|j: int| 0 <= j < i - start ==> !occurs_at(v@.skip(start as int), p@, j),
            replaced(v@, p@, with@) == out@ + replaced(v@.skip(start as int), p@, with@),
        decreases n - i,
    {
        let hit = matches_at(&v, &p, i);
        proof {
            if occurs_at(v@, p@, i as int) {
                assert(v@.skip(start as int).subrange(i - start, i - start + p.len()) =~= v@.subrange(
                    i as int,
                    i + p.len(),
                ));
            }
            if occurs_at(v@.skip(start as int), p@, i - start) {
                assert(v@.skip(start as int).subrange(i - start, i - start + p.len()) =~= v@.subrange(
                    i as int,
                    i + p.len(),
                ));
            }
        }
        if hit {
            proof {
                let rest = v@.skip(start as int);
                lemma_replaced_run(rest, p@, with@, i - start);
                let tail = rest.skip(i - start);
                assert(tail =~= v@.skip(i as int));
                assert(tail.subrange(0, p.len() as int) =~= v@.subrange(i as int, i + p.len()));
                assert(occurs_at(tail, p@, 0));
                assert(tail.skip(p.len() as int) =~= v@.skip(i + p.len()));
                assert(rest.take(i - start) =~= v@.subrange(start as int, i as int));
                assert(out@ + (rest.take(i - start) + (with@ + replaced(
                    v@.skip(i + p.len()),
                    p@,
                    with@,
                ))) =~= out@ + v@.subrange(start as int, i as int) + with@ + replaced(
                    v@.skip(i + p.len()),
                    p@,
                    with@,
                ));
            }
            out.append(s.substring_char(start, i));
            out.append(with);
            i = i + p.len();
            start = i;
        } else {
            i += 1;
        }
    }
    proof {
        let rest = v@.skip(start as int);
        lemma_replaced_run(rest, p@, with@, n - start);
        assert(rest.skip(n - start) =~= Seq::<char>::empty());
        assert(rest.take(n - start) =~= v@.subrange(start as int, n as int));
        assert(out@ + (rest.take(n - start) + Seq::<char>::empty()) =~= out@ + v@.subrange(
            start as int,
            n as int,
        ));
    }
    out.append(s.substring_char(start, n));
    out
}

/// `s` with `with` in the place of the first `pattern`, if `s` holds one.
pub fn replace_first(s: &str, pattern: &str, with: &str) -> (r: Option<String>)
    ensures
        crate::status::opt_text(r) == first_replaced(s@, pattern@, with@),
{
    let v = chars_of(s);
    let p = chars_of(pattern);
    let n = v.len();
    let mut i: usize = 0;
    let mut found = false;
    while i < n && !found
        invariant
            i <= n == v.len(),
            v@ == s@,
            p@ == pattern@,
            forall|j: int| 0 <= j < i ==> !occurs_at(v@, p@, j),
            found ==> i < n && occurs_at(v@, p@, i as int),
        decreases n - i + (if found { 0int } else { 1int }),
    {
        if matches_at(&v, &p, i) {
            found = true;
        } else {
            i += 1;
        }
    }
    if !found && !matches_at(&v, &p, n) {
        proof {
            lemma_first_replaced_run(v@, p@, with@, n as int);
            let tail = v@.skip(n as int);
            assert(tail =~= Seq::<char>::empty());
            if occurs_at(tail, p@, 0) {
                assert(v@.subrange(n as int, n + p.len()) =~= tail.subrange(0, p.len() as int));
            }
        }
        return None;
    }
    proof {
        lemma_first_replaced_run(v@, p@, with@, i as int);
        let tail = v@.skip(i as int);
        assert(tail.subrange(0, p.len() as int) =~= v@.subrange(i as int, i + p.len()));
        assert(occurs_at(tail, p@, 0));
        assert(tail.skip(p.len() as int) =~= v@.skip(i + p.len()));
        assert(v@.take(i as int) + (with@ + v@.skip(i + p.len())) =~= v@.subrange(0, i as int)
            + with@ + v@.subrange(i + p.len(), n as int));
    }
    let mut out = s.substring_char(0, i).to_owned();
    out.append(with);
    out.append(s.substring_char(i + p.len(), n));
    Some(out)
}

/// The views of a list of texts that are borrowed.
pub open spec fn strs(v: Seq<&str>) -> Seq<Seq<char>> {
    Seq::new(v.len(), |i: int| v[i]@)
}

/// The texts of the interface, and the language that is spoken.
#[derive(Debug)]
pub struct Localizer {
    current_language: String,
    translations: Vec<LanguageTable>,
}

fn find_entry<'a>(entries: &'a Vec<(String, String)>, key: &str) -> (r: Option<&'a String>)
    ensures
        match r {
            Some(text) => lookup(entry_texts(entries@), key@) == Some(text@),
            None => lookup(entry_texts(entries@), key@) is None,
        },
{
    let wanted = key.to_owned();
    let ghost all = entry_texts(entries@);
    let mut i: usize = 0;
    proof {
        assert(all.skip(0) =~= all);
    }
    while i < entries.len()
        invariant
            i <= entries.len(),
            all == entry_texts(entries@),
            wanted@ == key@,
            lookup(all, key@) == lookup(all.skip(i as int), key@),
        decreases entries.len() - i,
    {
        proof {
            assert(all.skip(i as int)[0] == all[i as int]);
            assert(all.skip(i as int).drop_first() =~= all.skip(i + 1));
        }
        if entries[i].0 == wanted {
            return Some(&entries[i].1);
        }
        i += 1;
    }
    None
}

fn find_table<'a>(languages: &'a Vec<LanguageTable>, code: &str) -> (r: Option<&'a LanguageTable>)
    ensures
        match r {
            Some(table) => table_for(language_views(languages@), code@) == Some(table@.entries),
            None => table_for(language_views(languages@), code@) is None,
        },
{
    let wanted = code.to_owned();
    let ghost all = language_views(languages@);
    let mut i: usize = 0;
    proof {
        assert(all.skip(0) =~= all);
    }
    while i < languages.len()
        invariant
            i <= languages.len(),
            all == language_views(languages@),
            wanted@ == code@,
            table_for(all, code@) == table_for(all.skip(i as int), code@),
        decreases languages.len() - i,
    {
        proof {
            assert(all.skip(i as int)[0] == all[i as int]);
            assert(all.skip(i as int).drop_first() =~= all.skip(i + 1));
        }
        if languages[i].code == wanted {
            return Some(&languages[i]);
        }
        i += 1;
    }
    None
}

fn pair(key: &str, text: &str) -> (r: (String, String))
    ensures
        r.0@ == key@,
        r.1@ == text@,
{
    (key.to_owned(), text.to_owned())
}

impl Localizer {
    /// The code of the language that is spoken.
    pub closed spec fn language(&self) -> Seq<char> {
        self.current_language@
    }

    /// The languages that are known, with their texts.
    pub closed spec fn languages(&self) -> Seq<LanguageView> {
        language_views(self.translations@)
    }

    /// The text for `key`: that of the language spoken; failing that, the
    /// English one; failing that, the key itself.
    pub open spec fn translated(&self, key: Seq<char>) -> Seq<char> {
        match text_in(self.languages(), self.language(), key) {
            Some(text) => text,
            None => match text_in(self.languages(), "en"@, key) {
                Some(text) => text,
                None => key,
            },
        }
    }

    /// A localizer that speaks `language`, with the texts of English and of
    /// Russian where there are any.
    pub fn from_tables(
        language: &str,
        en: Option<Vec<(String, String)>>,
        ru: Option<Vec<(String, String)>>,
    ) -> (r: Localizer)
        ensures
            r.language() == language@,
            r.languages() == loaded(opt_entries(en), opt_entries(ru)),
    {
        let mut translations: Vec<LanguageTable> = Vec::new();
        match en {
            Some(entries) => {
                translations.push(LanguageTable { code: "en".to_owned(), entries });
            },
            None => {},
        }
        match ru {
            Some(entries) => {
                translations.push(LanguageTable { code: "ru".to_owned(), entries });
            },
            None => {},
        }
        if translations.len() == 0 {
            let mut entries: Vec<(String, String)> = Vec::new();
            entries.push(pair("workspaces", "Workspaces"));
            entries.push(pair("language", "Language"));
            entries.push(pair("english", "English"));
            entries.push(pair("russian", "Russian"));
            proof {
                assert(entry_texts(entries@) =~= seq![
                    ("workspaces"@, "Workspaces"@),
                    ("language"@, "Language"@),
                    ("english"@, "English"@),
                    ("russian"@, "Russian"@),
                ]);
            }
            translations.push(LanguageTable { code: "en".to_owned(), entries });
        }
        proof {
            assert(language_views(translations@) =~= loaded(opt_entries(en), opt_entries(ru)));
        }
        Localizer { current_language: language.to_owned(), translations }
    }

    /// A localizer that speaks `language`, with the texts that the two JSON
    /// objects hold: `en_json` for English, `ru_json` for Russian.
    pub fn new(language: &str, en_json: &str, ru_json: &str) -> (r: Localizer)
        ensures
            r.language() == language@,
            r.languages() == loaded(json_entries(en_json@), json_entries(ru_json@)),
    {
        Localizer::from_tables(language, parse_entries(en_json), parse_entries(ru_json))
    }

    /// Speaks `language` from now on, if that language is known.
    pub fn set_language(&mut self, language: &str)
        ensures
            final(self).languages() == old(self).languages(),
            final(self).language() == if table_for(old(self).languages(), language@) is Some {
                language@
            } else {
                old(self).language()
            },
    {
        if find_table(&self.translations, language).is_some() {
            self.current_language = language.to_owned();
        }
    }

    /// The code of the language that is spoken.
    pub fn get_language(&self) -> (r: &str)
        ensures
            r@ == self.language(),
    {
        self.current_language.as_str()
    }

    /// The text for `key`.
    pub fn t(&self, key: &str) -> (r: String)
        ensures
            r@ == self.translated(key@),
    {
        match find_table(&self.translations, self.current_language.as_str()) {
            Some(table) => match find_entry(&table.entries, key) {
                Some(text) => {
                    return text.clone();
                },
                None => {},
            },
            None => {},
        }
        match find_table(&self.translations, "en") {
            Some(table) => match find_entry(&table.entries, key) {
                Some(text) => {
                    return text.clone();
                },
                None => {},
            },
            None => {},
        }
        key.to_owned()
    }

    /// The text for `key` with its placeholders filled by `args`.
    pub fn tf(&self, key: &str, args: &[&str]) -> (r: String)
        ensures
            r@ == formatted(self.translated(key@), strs(args@)),
    {
        let template = self.t(key);
        let ghost given = strs(args@);
        let mut result = template.clone();
        let mut i: usize = 0;
        while i < args.len()
            invariant
                i <= args.len(),
                given == strs(args@),
                result@ == numbered_filled(template@, given, i as nat),
            decreases args.len() - i,
        {
            let placeholder = "{".to_owned().concat(decimal_string(i as u64).as_str()).concat("}");
            proof {
                assert(given[i as int] == args@[i as int]@);
            }
            result = replace_all(result.as_str(), placeholder.as_str(), args[i]);
            i += 1;
        }
        let ghost numbered_done = result@;
        let mut k: usize = 0;
        let mut open = true;
        while k < args.len() && open
            invariant
                k <= args.len(),
                given == strs(args@),
                open ==> next_filled(result@, given, k as nat) == next_filled(
                    numbered_done,
                    given,
                    0,
                ),
                !open ==> result@ == next_filled(numbered_done, given, 0),
            decreases args.len() - k + (if open { 1int } else { 0int }),
        {
            proof {
                assert(given[k as int] == args@[k as int]@);
            }
            match replace_first(result.as_str(), "{}", args[k]) {
                Some(filled) => {
                    result = filled;
                    k += 1;
                },
                None => {
                    open = false;
                },
            }
        }
        result
    }

    /// The languages on offer: each code with the language's name in the
    /// language spoken.
    pub fn get_available_languages(&self) -> (r: Vec<(&'static str, String)>)
        ensures
            r.len() == 2,
            r[0].0@ == "en"@,
            r[0].1@ == self.translated("english"@),
            r[1].0@ == "ru"@,
            r[1].1@ == self.translated("russian"@),
    {
        let mut r: Vec<(&'static str, String)> = Vec::new();
        r.push(("en", self.t("english")));
        r.push(("ru", self.t("russian")));
        r
    }
}

/// The code of the language that is spoken where none was chosen.
pub fn default_language() -> (r: String)
    ensures
        r@ == "en"@,
{
    "en".to_owned()
}

} // verus!
