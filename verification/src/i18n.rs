//! Languages, translation catalogs and translatable messages.
use crate::catalogs::{DE_CATALOG, EN_CATALOG};
use crate::chars::{
    chars_of, find_from, first_index, is_first, lemma_first_absent, lemma_first_unique, lower,
    lower_char, owned, push_range, string_of_range,
};
use crate::json::{
    json_object_members, lookup, member_view, members_view, parsed_view, object_members, pair_view, pairs_map, pairs_view,
};
use vstd::prelude::*;
use vstd::string::*;

verus! {

/// The language setting: follow the system, or a fixed language.
#[derive(Clone, Copy, Debug, PartialEq, Eq, Structural, Default)]
pub enum Language {
    #[default]
    System,
    De,
    En,
}

/// A language that texts are rendered in.
#[derive(Clone, Copy, Debug, PartialEq, Eq, Structural)]
pub enum Locale {
    De,
    En,
}

/// The characters that end the language subtag of a locale name (`de_DE.UTF-8@euro`).
pub open spec fn is_separator(c: char) -> bool {
    c == '-' || c == '_' || c == '.' || c == '@'
}

/// `i` is the first separator of `s`.
pub open spec fn is_first_separator(s: Seq<char>, i: int) -> bool {
    &&& 0 <= i < s.len()
    &&& is_separator(s[i])
    &&& forall|j: int| 0 <= j < i ==> !is_separator(s[j])
}

/// The part of a locale name before its first separator.
pub open spec fn primary_subtag(s: Seq<char>) -> Seq<char> {
    if exists|i: int| is_first_separator(s, i) {
        s.take(choose|i: int| is_first_separator(s, i))
    } else {
        s
    }
}

/// `p` is `de` in any ASCII case.
pub open spec fn names_german(p: Seq<char>) -> bool {
    p.len() == 2 && lower_char(p[0]) == 'd' && lower_char(p[1]) == 'e'
}

/// The locale that a language setting selects, given the system's locale name.
pub open spec fn language_locale(language: Language, system: Option<Seq<char>>) -> Locale {
    match language {
        Language::De => Locale::De,
        Language::En => Locale::En,
        Language::System => {
            let name = match system {
                Some(s) => s,
                None => Seq::empty(),
            };
            if names_german(primary_subtag(name)) {
                Locale::De
            } else {
                Locale::En
            }
        },
    }
}

/// `sys_locale::get_locale`: the user's most preferred locale, taken from the
/// environment. Nothing is claimed of what it returns.
#[verifier::external_body]
fn system_locale() -> (r: Option<String>) {
    sys_locale::get_locale()
}

impl Language {
    /// The locale for this setting when the system's locale name is `system`.
    pub fn resolve(self, system: Option<&str>) -> (r: Locale)
        ensures
            r == language_locale(
                self,
                match system {
                    Some(s) => Some(s@),
                    None => None,
                },
            ),
    {
        match self {
            Language::De => Locale::De,
            Language::En => Locale::En,
            Language::System => {
                let name: Vec<char> = match system {
                    Some(s) => chars_of(s),
                    None => Vec::new(),
                };
                let ghost sys = match system {
                    Some(s) => s@,
                    None => Seq::<char>::empty(),
                };
                assert(name@ == sys);
                let mut i: usize = 0;
                while i < name.len() && !(name[i] == '-' || name[i] == '_' || name[i] == '.'
                    || name[i] == '@')
                    invariant
                        i <= name@.len(),
                        forall|j: int| 0 <= j < i ==> !is_separator(name@[j]),
                    decreases name@.len() - i,
                {
                    i = i + 1;
                }
                proof {
                    if i < name@.len() {
                        assert(is_first_separator(sys, i as int));
                        let k = choose|k: int| is_first_separator(sys, k);
                        if k < i {
                            assert(!is_separator(sys[k]));
                        }
                        if i < k {
                            assert(!is_separator(sys[i as int]));
                        }
                        assert(primary_subtag(sys) == sys.take(i as int));
                    } else {
                        assert(!exists|k: int| is_first_separator(sys, k));
                        assert(primary_subtag(sys) =~= sys.take(i as int));
                    }
                }
                if i == 2 && lower(name[0]) == 'd' && lower(name[1]) == 'e' {
                    Locale::De
                } else {
                    Locale::En
                }
            },
        }
    }

    /// The locale for this setting on this system.
    pub fn current(self) -> (r: Locale)
        ensures
            exists|system: Option<Seq<char>>| r == language_locale(self, system),
    {
        let system = system_locale();
        let r = match &system {
            Some(s) => self.resolve(Some(s.as_str())),
            None => self.resolve(None),
        };
        proof {
            let w = match system {
                Some(s) => Some(s@),
                None => None,
            };
            assert(r == language_locale(self, w));
        }
        r
    }
}

/// The JSON text of the catalog for `locale`.
pub open spec fn catalog_source(locale: Locale) -> Seq<char> {
    match locale {
        Locale::De => DE_CATALOG@,
        Locale::En => EN_CATALOG@,
    }
}

/// Every member of the object is a string.
pub open spec fn all_strings(ms: Seq<(Seq<char>, Option<Seq<char>>)>) -> bool {
    forall|i: int| 0 <= i < ms.len() ==> (#[trigger] ms[i]).1 is Some
}

/// The key/text pairs of the catalog for `locale`: the members of its JSON object when
/// they are all strings, and none otherwise.
pub open spec fn catalog_pairs(locale: Locale) -> Seq<(Seq<char>, Seq<char>)> {
    catalog_of(json_object_members(catalog_source(locale)))
}

/// The key/text pairs that parsed members make a catalog of: all of them when they
/// are all strings, none otherwise.
pub open spec fn catalog_of(members: Option<Seq<(Seq<char>, Option<Seq<char>>)>>) -> Seq<
    (Seq<char>, Seq<char>),
> {
    match members {
        Some(ms) => if all_strings(ms) {
            ms.map_values(|m: (Seq<char>, Option<Seq<char>>)| (m.0, m.1.unwrap()))
        } else {
            Seq::empty()
        },
        None => Seq::empty(),
    }
}

/// The catalog for `locale` as a map from message keys to templates.
pub open spec fn catalog_map(locale: Locale) -> Map<Seq<char>, Seq<char>> {
    pairs_map(catalog_pairs(locale))
}

/// The template for `key`: the locale's, else the English one, else the key itself.
pub open spec fn text_spec(locale: Locale, key: Seq<char>) -> Seq<char> {
    if catalog_map(locale).contains_key(key) {
        catalog_map(locale)[key]
    } else if catalog_map(Locale::En).contains_key(key) {
        catalog_map(Locale::En)[key]
    } else {
        key
    }
}

fn catalog_text(locale: Locale) -> (s: &'static str)
    ensures
        s@ == catalog_source(locale),
{
    match locale {
        Locale::De => DE_CATALOG,
        Locale::En => EN_CATALOG,
    }
}

/// The translation catalog for `locale`, as key/template pairs.
pub fn catalog(locale: Locale) -> (c: Vec<(String, String)>)
    ensures
        pairs_view(c@) == catalog_pairs(locale),
{
    catalog_from_members(object_members(catalog_text(locale)))
}

/// The catalog that a parsed JSON object gives: its members when all are strings,
/// otherwise nothing.
pub fn catalog_from_members(members: Option<Vec<(String, Option<String>)>>) -> (c: Vec<
    (String, String),
>)
    ensures
        pairs_view(c@) == catalog_of(parsed_view(members)),
{
    let ghost pv = parsed_view(members);
    match members {
        None => {
            let e: Vec<(String, String)> = Vec::new();
            assert(pairs_view(e@) =~= Seq::<(Seq<char>, Seq<char>)>::empty());
            e
        },
        Some(ms) => {
            let ghost mv = members_view(ms@);
            let mut c: Vec<(String, String)> = Vec::new();
            let mut i: usize = 0;
            while i < ms.len()
                invariant
                    mv == members_view(ms@),
                    pv == Some(mv),
                    pv == parsed_view(members),
                    i <= ms@.len(),
                    c@.len() == i,
                    forall|j: int| 0 <= j < i ==> (#[trigger] mv[j]).1 is Some,
                    forall|j: int|
                        0 <= j < i ==> pair_view(#[trigger] c@[j]) == (mv[j].0, mv[j].1.unwrap()),
                decreases ms@.len() - i,
            {
                assert(mv[i as int] == member_view(ms@[i as int]));
                match &ms[i].1 {
                    Some(v) => {
                        c.push((ms[i].0.clone(), v.clone()));
                    },
                    None => {
                        assert(!all_strings(mv));
                        let e: Vec<(String, String)> = Vec::new();
                        assert(pairs_view(e@) =~= Seq::<(Seq<char>, Seq<char>)>::empty());
                        return e;
                    },
                }
                i = i + 1;
            }
            assert(pairs_view(c@) =~= mv.map_values(
                |m: (Seq<char>, Option<Seq<char>>)| (m.0, m.1.unwrap()),
            ));
            c
        },
    }
}

/// The translated template for `key`, falling back to English and then to the key.
pub fn text(locale: Locale, key: &str) -> (r: String)
    ensures
        r@ == text_spec(locale, key@),
{
    match lookup(&catalog(locale), key) {
        Some(v) => v,
        None => match lookup(&catalog(Locale::En), key) {
            Some(v) => v,
            None => owned(key),
        },
    }
}

/// A translatable message: a catalog key, named parameters and the messages that
/// caused it.
#[derive(Debug)]
pub struct Message {
    pub key: String,
    /// Parameters in the order they were set; a later one replaces an earlier one
    /// with the same name.
    pub params: Vec<(String, String)>,
    pub causes: Vec<Message>,
}

/// What a message means: its key, its parameters by name, and its causes.
pub struct MessageView {
    pub key: Seq<char>,
    pub params: Map<Seq<char>, Seq<char>>,
    pub causes: Seq<MessageView>,
}

impl Message {
    pub open spec fn model(self) -> MessageView
        decreases self,
    {
        MessageView {
            key: self.key@,
            params: pairs_map(pairs_view(self.params@)),
            causes: Seq::new(
                self.causes@.len(),
                |i: int|
                    if 0 <= i < self.causes@.len() {
                        self.causes@[i].model()
                    } else {
                        arbitrary()
                    },
            ),
        }
    }
}

impl View for Message {
    type V = MessageView;

    open spec fn view(&self) -> MessageView {
        self.model()
    }
}

/// `t` with each `{name}` replaced by the parameter `name`, once, left to right; a
/// token without a parameter stays as written, and text from an unmatched `{` on is
/// kept as it is.
pub open spec fn substitute(t: Seq<char>, params: Map<Seq<char>, Seq<char>>) -> Seq<char>
    decreases t.len(),
{
    match first_index(t, '{') {
        None => t,
        Some(s) => {
            proof {
                lemma_first_index_is_first(t, '{');
            }
            let r = t.skip(s);
            match first_index(r, '}') {
                None => t,
                Some(e) => {
                    proof {
                        lemma_first_index_is_first(r, '}');
                    }
                    let token = r.subrange(1, e);
                    let piece = if params.contains_key(token) {
                        params[token]
                    } else {
                        r.take(e + 1)
                    };
                    t.take(s) + piece + substitute(r.skip(e + 1), params)
                },
            }
        },
    }
}

pub proof fn lemma_first_index_is_first(s: Seq<char>, c: char)
    ensures
        first_index(s, c) matches Some(i) ==> is_first(s, c, i),
{
}

/// The text of a message in `locale`: its substituted template, then, if it has
/// causes, `: ` and their texts separated by `; `.
pub open spec fn render_view(m: MessageView, locale: Locale) -> Seq<char>
    decreases m, 0nat,
{
    substitute(text_spec(locale, m.key), m.params) + if m.causes.len() == 0 {
        Seq::empty()
    } else {
        ": "@ + render_causes(m.causes, locale, m.causes.len())
    }
}

/// The texts of the first `n` causes, separated by `; `.
pub open spec fn render_causes(cs: Seq<MessageView>, locale: Locale, n: nat) -> Seq<char>
    decreases cs, n,
{
    if n == 0 || n > cs.len() {
        Seq::empty()
    } else if n == 1 {
        render_view(cs[0], locale)
    } else {
        render_causes(cs, locale, (n - 1) as nat) + "; "@ + render_view(cs[n - 1], locale)
    }
}

/// Appends `substitute(t[pos..], params)` to `out`.
fn push_substituted(out: &mut String, t: &Vec<char>, params: &Vec<(String, String)>)
    ensures
        final(out)@ == old(out)@ + substitute(t@, pairs_map(pairs_view(params@))),
{
    let ghost pm = pairs_map(pairs_view(params@));
    let mut pos: usize = 0;
    assert(t@.skip(0) =~= t@);
    while pos <= t.len()
        invariant_except_break
            pos <= t@.len(),
            pm == pairs_map(pairs_view(params@)),
            old(out)@ + substitute(t@, pm) == out@ + substitute(t@.skip(pos as int), pm),
        ensures
            final(out)@ == old(out)@ + substitute(t@, pm),
        decreases t@.len() - pos,
    {
        let ghost rest = t@.skip(pos as int);
        match find_from(t, pos, '{') {
            None => {
                proof {
                    assert forall|j: int| 0 <= j < rest.len() implies rest[j] != '{' by {
                        assert(rest[j] == t@[pos + j]);
                    }
                    lemma_first_absent(rest, '{');
                }
                push_range(out, t, pos, t.len());
                assert(rest =~= t@.subrange(pos as int, t@.len() as int));
                break;
            },
            Some(s) => {
                proof {
                    lemma_first_unique(rest, '{', s - pos);
                }
                let ghost r = rest.skip(s - pos);
                assert(r =~= t@.skip(s as int));
                match find_from(t, s, '}') {
                    None => {
                        proof {
                            assert forall|j: int| 0 <= j < r.len() implies r[j] != '}' by {
                                assert(r[j] == t@[s + j]);
                            }
                            lemma_first_absent(r, '}');
                        }
                        push_range(out, t, pos, t.len());
                        assert(rest =~= t@.subrange(pos as int, t@.len() as int));
                        break;
                    },
                    Some(e) => {
                        proof {
                            lemma_first_unique(r, '}', e - s);
                        }
                        push_range(out, t, pos, s);
                        assert(rest.take(s - pos) =~= t@.subrange(pos as int, s as int));
                        let token = string_of_range(t, s + 1, e);
                        assert(r.subrange(1, e - s) =~= t@.subrange(s + 1, e as int));
                        match lookup(params, token.as_str()) {
                            Some(v) => {
                                out.append(v.as_str());
                            },
                            None => {
                                push_range(out, t, s, e + 1);
                                assert(r.take(e - s + 1) =~= t@.subrange(s as int, e + 1));
                            },
                        }
                        assert(r.skip(e - s + 1) =~= t@.skip(e + 1));
                        pos = e + 1;
                    },
                }
            },
        }
    }
}

impl Message {
    /// A message with `key` and nothing else.
    pub fn new(key: &str) -> (r: Message)
        ensures
            r@ == (MessageView { key: key@, params: Map::empty(), causes: Seq::empty() }),
    {
        let r = Message { key: owned(key), params: Vec::new(), causes: Vec::new() };
        assert(r@.causes =~= Seq::<MessageView>::empty());
        r
    }

    /// This message with the parameter `key` set to `value`.
    pub fn param(self, key: &str, value: &str) -> (r: Message)
        ensures
            r@ == (MessageView { params: self@.params.insert(key@, value@), ..self@ }),
    {
        let mut m = self;
        m.params.push((owned(key), owned(value)));
        assert(pairs_view(m.params@).drop_last() =~= pairs_view(self.params@));
        assert(m@.causes =~= self@.causes);
        m
    }

    /// This message with `error` appended to its causes.
    pub fn cause(self, error: Message) -> (r: Message)
        ensures
            r@ == (MessageView { causes: self@.causes.push(error@), ..self@ }),
    {
        let ghost e = error@;
        let mut m = self;
        m.causes.push(error);
        assert(m@.causes =~= self@.causes.push(e));
        m
    }

    /// The message for a technical failure whose description is `details`.
    pub fn from_details(details: &str) -> (r: Message)
        ensures
            r@ == (MessageView {
                key: "error.technical"@,
                params: Map::empty().insert("details"@, details@),
                causes: Seq::empty(),
            }),
    {
        Message::new("error.technical").param("details", details)
    }

    /// The text of this message in `locale`.
    pub fn render(&self, locale: Locale) -> (r: String)
        ensures
            r@ == render_view(self@, locale),
        decreases self,
    {
        let template = text(locale, self.key.as_str());
        let t = chars_of(template.as_str());
        let mut output = String::new();
        push_substituted(&mut output, &t, &self.params);
        let ghost head = output@;
        let ghost cs = self@.causes;
        if self.causes.len() == 0 {
            assert(output@ =~= render_view(self@, locale));
            return output;
        }
        output.append(": ");
        let mut i: usize = 0;
        while i < self.causes.len()
            invariant
                cs == self@.causes,
                cs.len() == self.causes@.len() > 0,
                i <= cs.len(),
                output@ == head + ": "@ + render_causes(cs, locale, i as nat),
            decreases cs.len() - i,
        {
            if i > 0 {
                output.append("; ");
            }
            let part = self.causes[i].render(locale);
            output.append(part.as_str());
            i = i + 1;
            assert(output@ =~= head + ": "@ + render_causes(cs, locale, i as nat));
        }
        output
    }

    /// A copy of this message.
    pub fn duplicate(&self) -> (r: Message)
        ensures
            r@ == self@,
        decreases self,
    {
        let mut params: Vec<(String, String)> = Vec::new();
        let mut i: usize = 0;
        while i < self.params.len()
            invariant
                i <= self.params@.len(),
                params@.len() == i,
                forall|j: int|
                    0 <= j < i ==> pair_view(#[trigger] params@[j]) == pair_view(self.params@[j]),
            decreases self.params@.len() - i,
        {
            params.push((self.params[i].0.clone(), self.params[i].1.clone()));
            i = i + 1;
        }
        let mut causes: Vec<Message> = Vec::new();
        let mut k: usize = 0;
        while k < self.causes.len()
            invariant
                k <= self.causes@.len(),
                causes@.len() == k,
                forall|j: int| 0 <= j < k ==> (#[trigger] causes@[j])@ == self.causes@[j]@,
            decreases self.causes@.len() - k,
        {
            causes.push(self.causes[k].duplicate());
            k = k + 1;
        }
        let r = Message { key: self.key.clone(), params, causes };
        assert(pairs_view(r.params@) =~= pairs_view(self.params@));
        assert(r@.causes =~= self@.causes);
        r
    }
}

impl Clone for Message {
    fn clone(&self) -> (r: Self)
        ensures
            r@ == self@,
    {
        self.duplicate()
    }
}

} // verus!
