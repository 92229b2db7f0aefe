//! The configuration of a service as a provider offers it: the service
//! descriptor and the properties published with the offer.

use vstd::prelude::*;
use crate::model::CreateService;
use crate::strmap::StringMap;
use crate::text::{
    char_replaced,
    collapse_pairs,
    concat3,
    lowered,
    pairs_collapsed,
    replace_char,
    to_ascii_lowercase,
    trim_end_char,
    without_trailing,
};
use crate::uri::opt_view;

verus! {

/// Name of the directory in which service configurations are looked for.
pub const SERVICES_SUBDIRECTORY: &'static str = "services";

/// What is taken out of the key of an offer property: the first run of
/// characters that are not letters, digits, `-`, `_` or `.`.
pub const KEY_PATTERN: &'static str = "[^A-Za-z0-9-_.]+";

/// A JSON value. A number is kept as its text, and so is an object.
#[derive(Debug, PartialEq, Eq)]
pub enum Json {
    Null,
    Bool(bool),
    Number(String),
    Text(String),
    Array(Vec<Json>),
    Object(String),
}

/// The mathematical value of a [`Json`].
pub enum JsonView {
    Null,
    Bool(bool),
    Number(Seq<char>),
    Text(Seq<char>),
    Array(Seq<JsonView>),
    Object(Seq<char>),
}

/// The values of a sequence of JSON values.
pub open spec fn views(items: Seq<Json>) -> Seq<JsonView>
    decreases items,
{
    if items.len() == 0 {
        Seq::empty()
    } else {
        views(items.drop_last()).push(items.last().view())
    }
}

impl Json {
    /// The value of this JSON value.
    pub open spec fn view(self) -> JsonView
        decreases self,
    {
        match self {
            Json::Null => JsonView::Null,
            Json::Bool(b) => JsonView::Bool(b),
            Json::Number(n) => JsonView::Number(n@),
            Json::Text(t) => JsonView::Text(t@),
            Json::Array(items) => JsonView::Array(views(items@)),
            Json::Object(o) => JsonView::Object(o@),
        }
    }
}

/// The value of an optional JSON value.
pub open spec fn opt_json_view(v: Option<Json>) -> Option<JsonView> {
    match v {
        Some(v) => Some(v.view()),
        None => None,
    }
}

/// A value as it is published: a null is left out, an object is published as
/// its text, and an array without the nulls in it; anything else is
/// published as it is.
pub open spec fn sanitized(v: JsonView) -> Option<JsonView>
    decreases v,
{
    match v {
        JsonView::Null => None,
        JsonView::Object(text) => Some(JsonView::Text(text)),
        JsonView::Array(items) => Some(JsonView::Array(sanitized_all(items))),
        _ => Some(v),
    }
}

/// The values of `items` as they are published, without those left out.
pub open spec fn sanitized_all(items: Seq<JsonView>) -> Seq<JsonView>
    decreases items,
{
    if items.len() == 0 {
        Seq::empty()
    } else {
        let rest = sanitized_all(items.drop_last());
        match sanitized(items.last()) {
            Some(v) => rest.push(v),
            None => rest,
        }
    }
}

/// Prepares a value for publication.
pub fn sanitize_value(value: &Json) -> (r: Option<Json>)
    ensures
        opt_json_view(r) == sanitized(value.view()),
    decreases value,
{
    match value {
        Json::Null => None,
        Json::Bool(b) => Some(Json::Bool(*b)),
        Json::Number(n) => Some(Json::Number(n.clone())),
        Json::Text(t) => Some(Json::Text(t.clone())),
        Json::Object(o) => Some(Json::Text(o.clone())),
        Json::Array(items) => {
            let mut res: Vec<Json> = Vec::new();
            let mut i: usize = 0;
            assert(items@.take(0) =~= Seq::<Json>::empty());
            while i < items.len()
                invariant
                    i <= items.len(),
                    *value == Json::Array(*items),
                    views(res@) == sanitized_all(views(items@.take(i as int))),
                decreases items.len() - i,
            {
                let ghost before = res@;
                let ghost prefix = items@.take(i as int);
                let ghost next = items@.take(i + 1);
                proof {
                    assert(next.drop_last() =~= prefix);
                    assert(next.last() == items@[i as int]);
                    assert(views(next).drop_last() =~= views(prefix));
                    vstd::std_specs::vec::axiom_vec_index_decreases(*items, i as int);
                    assert(decreases_to!(*items => items[i as int]));
                    assert(*value is Array && value->Array_0 == *items);
                    assert(decreases_to!(*value => value->Array_0));
                    assert(decreases_to!(*value => items[i as int]));
                }
                match sanitize_value(&items[i]) {
                    Some(v) => {
                        res.push(v);
                        proof {
                            assert(res@.drop_last() =~= before);
                        }
                    },
                    None => {},
                }
                i += 1;
            }
            assert(items@.take(items.len() as int) =~= items@);
            Some(Json::Array(res))
        },
    }
}

/// What `regex::Regex::replace` gives for a text, with the regular
/// expression compiled from `pattern`: the text with the leftmost match
/// replaced; none where the pattern does not compile.
pub uninterp spec fn regex_first_replaced(
    pattern: Seq<char>,
    text: Seq<char>,
    replacement: Seq<char>,
) -> Option<Seq<char>>;

/// Compiles the pattern with `regex::Regex::new` and calls `replace` on the
/// text: the result is the named value [`regex_first_replaced`].
#[verifier::external_body]
fn regex_replace(pattern: &str, text: &str, replacement: &str) -> (r: Option<String>)
    ensures
        opt_view(r) == regex_first_replaced(pattern@, text@, replacement@),
{
    match regex::Regex::new(pattern) {
        Ok(re) => Some(re.replace(text, replacement).into_owned()),
        Err(_) => None,
    }
}

/// The key of a property once the characters that are not allowed are out:
/// `-` for each `_`, one `-` for each pair of them, one `.` for each pair of
/// them, and no `.` at the end.
pub open spec fn key_normalized(stripped: Seq<char>) -> Seq<char> {
    without_trailing(
        pairs_collapsed(pairs_collapsed(char_replaced(stripped, '_', '-'), '-'), '.'),
        '.',
    )
}

/// Normalises the key of a property, given the key in lower case and without
/// the characters that are not allowed.
pub fn normalize_key(stripped: &str) -> (r: String)
    ensures
        r@ == key_normalized(stripped@),
{
    let dashed = replace_char(stripped, '_', '-');
    let single = collapse_pairs(dashed.as_str(), '-');
    let dotted = collapse_pairs(single.as_str(), '.');
    trim_end_char(dotted.as_str(), '.').to_owned()
}

/// The values of the JSON values of a map.
pub open spec fn json_map_view(m: Map<Seq<char>, Json>) -> Map<Seq<char>, JsonView> {
    Map::new(|k: Seq<char>| m.contains_key(k), |k: Seq<char>| m[k].view())
}

/// The properties published for the given keys and values under `prefix`,
/// later ones replacing earlier ones of the same name; none where the
/// pattern for the keys does not compile.
pub open spec fn offered(
    keys: Seq<Seq<char>>,
    values: Seq<JsonView>,
    prefix: Seq<char>,
) -> Option<Map<Seq<char>, JsonView>>
    decreases keys.len(),
{
    if keys.len() == 0 || values.len() == 0 {
        Some(Map::empty())
    } else {
        match offered(keys.drop_last(), values.drop_last(), prefix) {
            None => None,
            Some(m) => match sanitized(values.last()) {
                None => Some(m),
                Some(v) => match regex_first_replaced(
                    KEY_PATTERN@,
                    lowered(keys.last()),
                    Seq::empty(),
                ) {
                    None => None,
                    Some(stripped) => Some(
                        m.insert(prefix + seq!['.'] + key_normalized(stripped), v),
                    ),
                },
            },
        }
    }
}

/// The configuration of a service with the properties of its offer.
pub struct ServiceConf {
    pub inner: CreateService,
    pub offer_properties: StringMap<Json>,
}

impl ServiceConf {
    /// The properties to publish with the offer, each under `prefix`, a dot
    /// and its normalised key. Properties whose value is null are left out.
    pub fn offer_properties(&self, prefix: &str) -> (r: Result<StringMap<Json>, String>)
        requires
            self.offer_properties.wf(),
        ensures
            match offered(
                self.offer_properties.keys(),
                views(self.offer_properties.values()),
                prefix@,
            ) {
                Some(m) => r matches Ok(found) && found.wf() && json_map_view(found@) == m,
                None => r matches Err(e) && e@ == "invalid key pattern"@,
            },
    {
        let mut map: StringMap<Json> = StringMap::new();
        let n = self.offer_properties.len();
        let mut i: usize = 0;
        proof {
            reveal_strlit(".");
            reveal_strlit("");
            assert("."@ =~= seq!['.']);
            assert(""@ =~= Seq::<char>::empty());
            assert(self.offer_properties.keys().take(0) =~= Seq::<Seq<char>>::empty());
            assert(json_map_view(map@) =~= Map::<Seq<char>, JsonView>::empty());
        }
        while i < n
            invariant
                i <= n,
                n == self.offer_properties.keys().len(),
                n == self.offer_properties.values().len(),
                self.offer_properties.wf(),
                map.wf(),
                "."@ == seq!['.'],
                ""@ == Seq::<char>::empty(),
                offered(
                    self.offer_properties.keys().take(i as int),
                    views(self.offer_properties.values().take(i as int)),
                    prefix@,
                ) == Some(json_map_view(map@)),
            decreases n - i,
        {
            let ghost keys = self.offer_properties.keys().take(i + 1);
            let ghost vals = self.offer_properties.values().take(i + 1);
            proof {
                assert(keys.drop_last() =~= self.offer_properties.keys().take(i as int));
                assert(vals.drop_last() =~= self.offer_properties.values().take(i as int));
                assert(views(vals).drop_last() =~= views(vals.drop_last()));
                assert(views(vals).last() == vals.last().view());
                lemma_views_len(vals);
            }
            let key = self.offer_properties.key_at(i);
            let value = match sanitize_value(self.offer_properties.value_at(i)) {
                Some(value) => value,
                None => {
                    i += 1;
                    continue ;
                },
            };
            let lower = to_ascii_lowercase(key);
            let stripped = match regex_replace(KEY_PATTERN, lower.as_str(), "") {
                Some(stripped) => stripped,
                None => {
                    proof {
                        let all_keys = self.offer_properties.keys();
                        let all_values = self.offer_properties.values();
                        lemma_views_len(all_values);
                        lemma_views_take(all_values, i + 1);
                        assert(offered(keys, views(vals), prefix@) is None);
                        lemma_offered_stays_none(all_keys, views(all_values), prefix@, i + 1);
                    }
                    return Err("invalid key pattern".to_owned());
                },
            };
            let name = concat3(prefix, ".", normalize_key(stripped.as_str()).as_str());
            let ghost before = map@;
            map.insert(name, value);
            proof {
                assert(json_map_view(map@) =~= json_map_view(before).insert(name@, value.view()));
            }
            i += 1;
        }
        proof {
            assert(self.offer_properties.keys().take(n as int) =~= self.offer_properties.keys());
            assert(self.offer_properties.values().take(n as int)
                =~= self.offer_properties.values());
        }
        Ok(map)
    }
}

/// Lemma: there is one value for each JSON value.
pub proof fn lemma_views_len(items: Seq<Json>)
    ensures
        views(items).len() == items.len(),
    decreases items.len(),
{
    if items.len() > 0 {
        lemma_views_len(items.drop_last());
    }
}

/// Lemma: the values of a prefix are the prefix of the values.
pub proof fn lemma_views_take(items: Seq<Json>, k: int)
    requires
        0 <= k <= items.len(),
    ensures
        views(items.take(k)) == views(items).take(k),
    decreases items.len(),
{
    lemma_views_len(items);
    if k == items.len() {
        assert(items.take(k) =~= items);
        assert(views(items).take(k) =~= views(items));
    } else {
        lemma_views_take(items.drop_last(), k);
        assert(items.drop_last().take(k) =~= items.take(k));
        lemma_views_len(items.drop_last());
        assert(views(items.drop_last()).take(k) =~= views(items).take(k));
    }
}

/// Lemma: once the properties of a prefix of the entries cannot be
/// published, those of all entries cannot.
pub proof fn lemma_offered_stays_none(
    keys: Seq<Seq<char>>,
    values: Seq<JsonView>,
    prefix: Seq<char>,
    k: int,
)
    requires
        0 <= k <= keys.len(),
        keys.len() == values.len(),
        offered(keys.take(k), values.take(k), prefix) is None,
    ensures
        offered(keys, values, prefix) is None,
    decreases keys.len(),
{
    if k == keys.len() {
        assert(keys.take(k) =~= keys);
        assert(values.take(k) =~= values);
    } else {
        assert(keys.drop_last().take(k) =~= keys.take(k));
        assert(values.drop_last().take(k) =~= values.take(k));
        lemma_offered_stays_none(keys.drop_last(), values.drop_last(), prefix, k);
    }
}

} // verus!
