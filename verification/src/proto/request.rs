use vstd::prelude::*;

use crate::net::parse::ip_parse;
use crate::net::IpAddress;

use crate::text::{
    chars_eq, chars_eq_str, chars_of, find_char, split_once, string_of, string_of_range, sub_chars,
};

verus! {

/// Attribute name/value pairs, each name at most once. Two sets of
/// attributes are equal when they map the same names to the same values,
/// whatever order the names came in.
#[derive(Debug, Eq)]
pub struct Attributes {
    entries: Vec<(String, String)>,
}

/// No two entries share a name.
pub open spec fn unique_names(e: Seq<(String, String)>) -> bool {
    forall|i: int, j: int|
        0 <= i < e.len() && 0 <= j < e.len() && i != j ==> (#[trigger] e[i]).0@ != (
        #[trigger] e[j]).0@
}

/// The map from each entry's name to its value.
pub open spec fn entries_map(e: Seq<(String, String)>) -> Map<Seq<char>, Seq<char>> {
    Map::new(
        |k: Seq<char>| exists|i: int| 0 <= i < e.len() && e[i].0@ == k,
        |k: Seq<char>| e[choose|i: int| 0 <= i < e.len() && e[i].0@ == k].1@,
    )
}

proof fn lemma_entries_update(e: Seq<(String, String)>, j: int, name: String, value: String)
    requires
        unique_names(e),
        0 <= j < e.len(),
        e[j].0@ == name@,
    ensures
        unique_names(e.update(j, (name, value))),
        entries_map(e.update(j, (name, value))) =~= entries_map(e).insert(name@, value@),
{
    let n = e.update(j, (name, value));
    assert forall|i: int, l: int|
        0 <= i < n.len() && 0 <= l < n.len() && i != l implies (#[trigger] n[i]).0@ != (
        #[trigger] n[l]).0@ by {
        assert(e[i].0@ != e[l].0@);
    }
    let m = entries_map(e).insert(name@, value@);
    assert forall|k: Seq<char>| #[trigger] entries_map(n).dom().contains(k) <==> m.dom().contains(
        k,
    ) by {
        if m.dom().contains(k) && k != name@ {
            let i = choose|i: int| 0 <= i < e.len() && e[i].0@ == k;
            assert(n[i].0@ == k);
        }
        if k == name@ {
            assert(n[j].0@ == k);
        }
    }
    assert forall|k: Seq<char>| #[trigger] entries_map(n).dom().contains(k) implies entries_map(
        n,
    )[k] == m[k] by {
        let i = choose|i: int| 0 <= i < n.len() && n[i].0@ == k;
        if k == name@ {
            assert(i == j);
        } else {
            let i2 = choose|i2: int| 0 <= i2 < e.len() && e[i2].0@ == k;
            assert(i == i2);
        }
    }
}

proof fn lemma_entries_push(e: Seq<(String, String)>, name: String, value: String)
    requires
        unique_names(e),
        forall|i: int| 0 <= i < e.len() ==> (#[trigger] e[i]).0@ != name@,
    ensures
        unique_names(e.push((name, value))),
        entries_map(e.push((name, value))) =~= entries_map(e).insert(name@, value@),
{
    let n = e.push((name, value));
    assert forall|i: int, l: int|
        0 <= i < n.len() && 0 <= l < n.len() && i != l implies (#[trigger] n[i]).0@ != (
        #[trigger] n[l]).0@ by {
        if i < e.len() && l < e.len() {
            assert(e[i].0@ != e[l].0@);
        } else if i < e.len() {
            assert(e[i].0@ != name@);
        } else {
            assert(e[l].0@ != name@);
        }
    }
    let m = entries_map(e).insert(name@, value@);
    assert forall|k: Seq<char>| #[trigger] entries_map(n).dom().contains(k) <==> m.dom().contains(
        k,
    ) by {
        if m.dom().contains(k) && k != name@ {
            let i = choose|i: int| 0 <= i < e.len() && e[i].0@ == k;
            assert(n[i].0@ == k);
        }
        if k == name@ {
            assert(n[e.len() as int].0@ == k);
        }
        if entries_map(n).dom().contains(k) && k != name@ {
            let i = choose|i: int| 0 <= i < n.len() && n[i].0@ == k;
            assert(e[i].0@ == k);
        }
    }
    assert forall|k: Seq<char>| #[trigger] entries_map(n).dom().contains(k) implies entries_map(
        n,
    )[k] == m[k] by {
        let i = choose|i: int| 0 <= i < n.len() && n[i].0@ == k;
        if k == name@ {
            assert(i == e.len());
        } else {
            let i2 = choose|i2: int| 0 <= i2 < e.len() && e[i2].0@ == k;
            assert(i == i2);
        }
    }
}

/// Index of the entry named `name`.
fn position_of(entries: &Vec<(String, String)>, name: &[char]) -> (r: Option<usize>)
    ensures
        r matches Some(j) ==> j < entries@.len() && entries@[j as int].0@ == name@,
        r is None ==> forall|j: int| 0 <= j < entries@.len() ==> (#[trigger] entries@[j]).0@ != name@,
{
    let mut i: usize = 0;
    while i < entries.len()
        invariant
            i <= entries@.len(),
            forall|j: int| 0 <= j < i ==> (#[trigger] entries@[j]).0@ != name@,
        decreases entries.len() - i,
    {
        let key = chars_of(entries[i].0.as_str());
        if chars_eq(key.as_slice(), name) {
            return Some(i);
        }
        i = i + 1;
    }
    None
}

impl Clone for Attributes {
    fn clone(&self) -> (r: Attributes)
        ensures
            r@ == self@,
    {
        proof {
            use_type_invariant(self);
        }
        let mut entries: Vec<(String, String)> = Vec::new();
        let mut i: usize = 0;
        while i < self.entries.len()
            invariant
                i <= self.entries@.len(),
                unique_names(self.entries@),
                entries@.len() == i,
                forall|j: int|
                    0 <= j < i ==> (#[trigger] entries@[j]).0@ == self.entries@[j].0@
                        && entries@[j].1@ == self.entries@[j].1@,
            decreases self.entries.len() - i,
        {
            let name = self.entries[i].0.clone();
            let value = self.entries[i].1.clone();
            entries.push((name, value));
            i = i + 1;
        }
        proof {
            let e = self.entries@;
            assert(unique_names(entries@)) by {
                assert forall|a: int, b: int|
                    0 <= a < entries@.len() && 0 <= b < entries@.len() && a != b implies (
                    #[trigger] entries@[a]).0@ != (#[trigger] entries@[b]).0@ by {
                    assert(e[a].0@ != e[b].0@);
                }
            }
            assert forall|k: Seq<char>| #[trigger] entries_map(entries@).dom().contains(k)
                <==> entries_map(e).dom().contains(k) by {
                if entries_map(e).dom().contains(k) {
                    let a = choose|a: int| 0 <= a < e.len() && e[a].0@ == k;
                    assert(entries@[a].0@ == k);
                }
                if entries_map(entries@).dom().contains(k) {
                    let a = choose|a: int| 0 <= a < entries@.len() && entries@[a].0@ == k;
                    assert(e[a].0@ == k);
                }
            }
            assert forall|k: Seq<char>| #[trigger] entries_map(entries@).dom().contains(k)
                implies entries_map(entries@)[k] == entries_map(e)[k] by {
                let a = choose|a: int| 0 <= a < entries@.len() && entries@[a].0@ == k;
                let b = choose|b: int| 0 <= b < e.len() && e[b].0@ == k;
                assert(e[a].0@ == k);
                assert(a == b);
            }
            assert(entries_map(entries@) =~= entries_map(e));
        }
        Attributes { entries }
    }
}

/// An entry's name maps to its value.
proof fn lemma_entry_in_map(e: Seq<(String, String)>, i: int)
    requires
        unique_names(e),
        0 <= i < e.len(),
    ensures
        entries_map(e).contains_key(e[i].0@),
        entries_map(e)[e[i].0@] == e[i].1@,
{
    let k = e[i].0@;
    assert(entries_map(e).dom().contains(k));
    let j = choose|j: int| 0 <= j < e.len() && e[j].0@ == k;
    assert(j == i);
}

/// Whether every entry of `items` is an entry of the map of `of`.
fn covers(of: &Vec<(String, String)>, items: &Vec<(String, String)>) -> (r: bool)
    requires
        unique_names(of@),
    ensures
        r == covers_spec(of@, items@),
{
    let mut i: usize = 0;
    while i < items.len()
        invariant
            i <= items@.len(),
            unique_names(of@),
            forall|j: int|
                0 <= j < i ==> entries_map(of@).contains_key((#[trigger] items@[j]).0@)
                    && entries_map(of@)[items@[j].0@] == items@[j].1@,
        decreases items.len() - i,
    {
        let name = chars_of(items[i].0.as_str());
        match position_of(of, name.as_slice()) {
            None => {
                proof {
                    if entries_map(of@).contains_key(items@[i as int].0@) {
                        let j = choose|j: int| 0 <= j < of@.len() && of@[j].0@ == items@[i as int].0@;
                        assert(of@[j].0@ != items@[i as int].0@);
                    }
                }
                return false;
            },
            Some(j) => {
                proof {
                    lemma_entry_in_map(of@, j as int);
                }
                let a = chars_of(of[j].1.as_str());
                let b = chars_of(items[i].1.as_str());
                if !chars_eq(a.as_slice(), b.as_slice()) {
                    return false;
                }
            },
        }
        i = i + 1;
    }
    true
}

impl PartialEq for Attributes {
    fn eq(&self, other: &Self) -> (r: bool) {
        proof {
            use_type_invariant(self);
            use_type_invariant(other);
        }
        let r = covers(&other.entries, &self.entries) && covers(&self.entries, &other.entries);
        proof {
            let (a, b) = (self.entries@, other.entries@);
            if r {
                assert forall|k: Seq<char>| #[trigger] entries_map(a).dom().contains(k)
                    <==> entries_map(b).dom().contains(k) by {
                    if entries_map(a).dom().contains(k) {
                        let i = choose|i: int| 0 <= i < a.len() && a[i].0@ == k;
                        assert(entries_map(b).contains_key(a[i].0@));
                    }
                    if entries_map(b).dom().contains(k) {
                        let i = choose|i: int| 0 <= i < b.len() && b[i].0@ == k;
                        assert(entries_map(a).contains_key(b[i].0@));
                    }
                }
                assert forall|k: Seq<char>| #[trigger] entries_map(a).dom().contains(k) implies
                    entries_map(a)[k] == entries_map(b)[k] by {
                    let i = choose|i: int| 0 <= i < a.len() && a[i].0@ == k;
                    lemma_entry_in_map(a, i);
                    assert(entries_map(b).contains_key(a[i].0@));
                }
                assert(entries_map(a) =~= entries_map(b));
            } else if !covers_spec(b, a) {
                let i = choose|i: int|
                    0 <= i < a.len() && !(entries_map(b).contains_key(a[i].0@)
                        && entries_map(b)[a[i].0@] == a[i].1@);
                lemma_entry_in_map(a, i);
            } else {
                let i = choose|i: int|
                    0 <= i < b.len() && !(entries_map(a).contains_key(b[i].0@)
                        && entries_map(a)[b[i].0@] == b[i].1@);
                lemma_entry_in_map(b, i);
            }
        }
        r
    }
}

/// Whether every entry of `items` is an entry of the map of `of`.
pub open spec fn covers_spec(of: Seq<(String, String)>, items: Seq<(String, String)>) -> bool {
    forall|i: int|
        0 <= i < items.len() ==> entries_map(of).contains_key((#[trigger] items[i]).0@)
            && entries_map(of)[items[i].0@] == items[i].1@
}

impl vstd::std_specs::cmp::PartialEqSpecImpl for Attributes {
    open spec fn obeys_eq_spec() -> bool {
        true
    }

    open spec fn eq_spec(&self, other: &Attributes) -> bool {
        self@ == other@
    }
}

impl Attributes {
    #[verifier::type_invariant]
    spec fn well_formed(self) -> bool {
        unique_names(self.entries@)
    }
}

impl View for Attributes {
    type V = Map<Seq<char>, Seq<char>>;

    closed spec fn view(&self) -> Map<Seq<char>, Seq<char>> {
        entries_map(self.entries@)
    }
}

impl Attributes {
    /// No attributes.
    pub fn new() -> (r: Attributes)
        ensures
            r@ == Map::<Seq<char>, Seq<char>>::empty(),
    {
        let r = Attributes { entries: Vec::new() };
        assert(r@ =~= Map::<Seq<char>, Seq<char>>::empty());
        r
    }

    /// The value of attribute `name`, if present.
    pub fn get(&self, name: &str) -> (r: Option<&String>)
        ensures
            r matches Some(v) ==> self@.contains_key(name@) && self@[name@] == v@,
            r is None ==> !self@.contains_key(name@),
    {
        proof {
            use_type_invariant(self);
        }
        let mut i: usize = 0;
        while i < self.entries.len()
            invariant
                i <= self.entries@.len(),
                unique_names(self.entries@),
                forall|j: int| 0 <= j < i ==> (#[trigger] self.entries@[j]).0@ != name@,
            decreases self.entries.len() - i,
        {
            let key = chars_of(self.entries[i].0.as_str());
            if chars_eq_str(key.as_slice(), name) {
                proof {
                    assert(self.entries@[i as int].0@ == name@);
                    let k = choose|j: int|
                        0 <= j < self.entries@.len() && self.entries@[j].0@ == name@;
                    assert(k == i);
                }
                return Some(&self.entries[i].1);
            }
            i = i + 1;
        }
        None
    }

    /// Sets attribute `name` to `value`, replacing an earlier value.
    pub fn insert(&mut self, name: String, value: String)
        ensures
            final(self)@ == old(self)@.insert(name@, value@),
    {
        proof {
            use_type_invariant(&*self);
        }
        let nv = chars_of(name.as_str());
        let found = position_of(&self.entries, nv.as_slice());
        let mut entries: Vec<(String, String)> = Vec::new();
        std::mem::swap(&mut entries, &mut self.entries);
        match found {
            Some(j) => {
                proof {
                    lemma_entries_update(entries@, j as int, name, value);
                }
                entries.set(j, (name, value));
            },
            None => {
                proof {
                    lemma_entries_push(entries@, name, value);
                }
                entries.push((name, value));
            },
        }
        self.entries = entries;
    }
}

/// A single Postfix policy delegation request (one "attribute=value" block).
///
/// See <https://www.postfix.org/SMTPD_POLICY_README.html> for the full
/// attribute list. Only the attributes this daemon actually consults get a
/// dedicated field; everything else lands in `extra` so unknown/unused
/// attributes never cause a parse failure.
#[derive(Debug, Clone, PartialEq, Eq)]
pub struct PolicyRequest {
    pub request: Option<String>,
    pub protocol_state: Option<String>,
    pub protocol_name: Option<String>,
    pub helo_name: Option<String>,
    pub queue_id: Option<String>,
    pub sender: Option<String>,
    pub recipient: Option<String>,
    pub client_address: Option<String>,
    pub client_name: Option<String>,
    pub reverse_client_name: Option<String>,
    pub instance: Option<String>,
    pub sasl_username: Option<String>,
    pub extra: Attributes,
}

#[derive(Debug, Clone, PartialEq, Eq)]
pub enum RequestParseError {
    /// A line without `=`: that line.
    MalformedLine(String),
    /// No attribute lines before the terminator.
    EmptyRequest,
    /// No `client_address` attribute.
    MissingClientAddress,
    /// A `client_address` that is no IP address: that value.
    InvalidClientAddress(String),
}

/// The characters of an optional string.
pub open spec fn opt_view(o: Option<String>) -> Option<Seq<char>> {
    match o {
        Some(s) => Some(s@),
        None => None,
    }
}

/// The character view of each line.
pub open spec fn line_views(lines: Seq<String>) -> Seq<Seq<char>> {
    lines.map_values(|l: String| l@)
}

/// The attributes a block of lines sets: each `name=value` line sets
/// `name` (the text before its first `=`) to the rest of the line, later
/// lines overriding earlier ones; lines without `=` set nothing.
pub open spec fn attributes_of(lines: Seq<Seq<char>>) -> Map<Seq<char>, Seq<char>>
    decreases lines.len(),
{
    if lines.len() == 0 {
        Map::empty()
    } else {
        let m = attributes_of(lines.drop_last());
        match split_once(lines.last(), '=') {
            Some((k, v)) => m.insert(k, v),
            None => m,
        }
    }
}

/// The attribute names that have a field of their own.
pub open spec fn known_names() -> Set<Seq<char>> {
    set![
        "request"@,
        "protocol_state"@,
        "protocol_name"@,
        "helo_name"@,
        "queue_id"@,
        "sender"@,
        "recipient"@,
        "client_address"@,
        "client_name"@,
        "reverse_client_name"@,
        "instance"@,
        "sasl_username"@,
    ]
}

/// `req` holds exactly the attributes `attrs`: each named field the value
/// of its attribute, and `extra` every other attribute.
pub open spec fn holds_attributes(req: PolicyRequest, attrs: Map<Seq<char>, Seq<char>>) -> bool {
    &&& opt_view(req.request) == attrs.get("request"@)
    &&& opt_view(req.protocol_state) == attrs.get("protocol_state"@)
    &&& opt_view(req.protocol_name) == attrs.get("protocol_name"@)
    &&& opt_view(req.helo_name) == attrs.get("helo_name"@)
    &&& opt_view(req.queue_id) == attrs.get("queue_id"@)
    &&& opt_view(req.sender) == attrs.get("sender"@)
    &&& opt_view(req.recipient) == attrs.get("recipient"@)
    &&& opt_view(req.client_address) == attrs.get("client_address"@)
    &&& opt_view(req.client_name) == attrs.get("client_name"@)
    &&& opt_view(req.reverse_client_name) == attrs.get("reverse_client_name"@)
    &&& opt_view(req.instance) == attrs.get("instance"@)
    &&& opt_view(req.sasl_username) == attrs.get("sasl_username"@)
    &&& req.extra@ == attrs.remove_keys(known_names())
}

/// Every line has an `=`.
pub open spec fn all_well_formed(lines: Seq<Seq<char>>) -> bool {
    forall|i: int| 0 <= i < lines.len() ==> (#[trigger] split_once(lines[i], '=')) is Some
}

impl Default for PolicyRequest {
    fn default() -> (r: PolicyRequest)
        ensures
            holds_attributes(r, Map::empty()),
    {
        let r = PolicyRequest {
            request: None,
            protocol_state: None,
            protocol_name: None,
            helo_name: None,
            queue_id: None,
            sender: None,
            recipient: None,
            client_address: None,
            client_name: None,
            reverse_client_name: None,
            instance: None,
            sasl_username: None,
            extra: Attributes::new(),
        };
        assert(Map::<Seq<char>, Seq<char>>::empty().remove_keys(known_names()) =~= Map::empty());
        r
    }
}

/// The attribute names with fields of their own are distinct texts.
proof fn lemma_known_names()
    ensures
        "request"@.len() == 7,
        "protocol_state"@.len() == 14,
        "protocol_name"@.len() == 13,
        "helo_name"@.len() == 9,
        "queue_id"@.len() == 8,
        "sender"@.len() == 6,
        "recipient"@.len() == 9,
        "client_address"@.len() == 14,
        "client_name"@.len() == 11,
        "reverse_client_name"@.len() == 19,
        "instance"@.len() == 8,
        "sasl_username"@.len() == 13,
        "queue_id"@[0] != "instance"@[0],
        "helo_name"@[0] != "recipient"@[0],
        "protocol_name"@[0] != "sasl_username"@[0],
        "protocol_state"@[0] != "client_address"@[0],
{
    reveal_strlit("request");
    reveal_strlit("protocol_state");
    reveal_strlit("protocol_name");
    reveal_strlit("helo_name");
    reveal_strlit("queue_id");
    reveal_strlit("sender");
    reveal_strlit("recipient");
    reveal_strlit("client_address");
    reveal_strlit("client_name");
    reveal_strlit("reverse_client_name");
    reveal_strlit("instance");
    reveal_strlit("sasl_username");
}

/// Sets attribute `key` of `req` to `value`.
fn set_attribute(
    req: &mut PolicyRequest,
    key: &[char],
    value: String,
    Ghost(attrs): Ghost<Map<Seq<char>, Seq<char>>>,
)
    requires
        holds_attributes(*old(req), attrs),
    ensures
        holds_attributes(*final(req), attrs.insert(key@, value@)),
{
    proof {
        lemma_known_names();
    }
    let ghost m = attrs.insert(key@, value@);
    if chars_eq_str(key, "request") {
        req.request = Some(value);
    } else if chars_eq_str(key, "protocol_state") {
        req.protocol_state = Some(value);
    } else if chars_eq_str(key, "protocol_name") {
        req.protocol_name = Some(value);
    } else if chars_eq_str(key, "helo_name") {
        req.helo_name = Some(value);
    } else if chars_eq_str(key, "queue_id") {
        req.queue_id = Some(value);
    } else if chars_eq_str(key, "sender") {
        req.sender = Some(value);
    } else if chars_eq_str(key, "recipient") {
        req.recipient = Some(value);
    } else if chars_eq_str(key, "client_address") {
        req.client_address = Some(value);
    } else if chars_eq_str(key, "client_name") {
        req.client_name = Some(value);
    } else if chars_eq_str(key, "reverse_client_name") {
        req.reverse_client_name = Some(value);
    } else if chars_eq_str(key, "instance") {
        req.instance = Some(value);
    } else if chars_eq_str(key, "sasl_username") {
        req.sasl_username = Some(value);
    } else {
        let name = string_of(key);
        req.extra.insert(name, value);
        assert(!known_names().contains(key@));
        assert(m.remove_keys(known_names()) =~= attrs.remove_keys(known_names()).insert(
            key@,
            value@,
        ));
        return;
    }
    assert(known_names().contains(key@));
    assert(m.remove_keys(known_names()) =~= attrs.remove_keys(known_names()));
}

impl PolicyRequest {
    /// Parse a request from its raw `attr=value` lines (terminator already
    /// stripped by the caller/codec).
    pub fn from_lines(lines: &[String]) -> (r: Result<PolicyRequest, RequestParseError>)
        ensures
            r is Ok <==> lines@.len() > 0 && all_well_formed(line_views(lines@)),
            r matches Ok(req) ==> holds_attributes(req, attributes_of(line_views(lines@))),
            r matches Err(RequestParseError::EmptyRequest) ==> lines@.len() == 0,
            lines@.len() == 0 ==> r matches Err(RequestParseError::EmptyRequest),
            r matches Err(RequestParseError::MalformedLine(l)) ==> exists|i: int|
                0 <= i < lines@.len() && l@ == lines@[i]@ && split_once(lines@[i]@, '=') is None
                    && forall|j: int| 0 <= j < i ==> (#[trigger] split_once(lines@[j]@, '='))
                    is Some,
            r is Err ==> (r matches Err(RequestParseError::EmptyRequest)) || (r matches Err(
                RequestParseError::MalformedLine(_),
            )),
    {
        if lines.len() == 0 {
            return Err(RequestParseError::EmptyRequest);
        }
        let ghost lv = line_views(lines@);
        let mut req = PolicyRequest::default();
        let mut i: usize = 0;
        assert(lv.take(0) =~= Seq::<Seq<char>>::empty());
        while i < lines.len()
            invariant
                i <= lines@.len(),
                lv == line_views(lines@),
                holds_attributes(req, attributes_of(lv.take(i as int))),
                forall|j: int| 0 <= j < i ==> (#[trigger] split_once(lines@[j]@, '=')) is Some,
            decreases lines.len() - i,
        {
            let line = chars_of(lines[i].as_str());
            match find_char(line.as_slice(), '=') {
                None => {
                    proof {
                        assert(lv[i as int] == lines@[i as int]@);
                        assert(split_once(lv[i as int], '=') is None);
                    }
                    return Err(RequestParseError::MalformedLine(lines[i].clone()));
                },
                Some(eq) => {
                    let key = sub_chars(line.as_slice(), 0, eq);
                    let value = string_of_range(line.as_slice(), eq + 1, line.len());
                    proof {
                        assert(lv.take(i + 1).drop_last() =~= lv.take(i as int));
                        assert(key@ =~= lines@[i as int]@.take(eq as int));
                        assert(value@ =~= lines@[i as int]@.skip(eq + 1));
                    }
                    set_attribute(
                        &mut req,
                        key.as_slice(),
                        value,
                        Ghost(attributes_of(lv.take(i as int))),
                    );
                },
            }
            i = i + 1;
        }
        assert(lv.take(lines.len() as int) =~= lv);
        Ok(req)
    }
}

impl PolicyRequest {
    /// The parsed `client_address`: the IP address that the request's SPF
    /// checks run against.
    pub fn client_ip(&self) -> (r: Result<IpAddress, RequestParseError>)
        ensures
            self.client_address is None ==> r == Err::<IpAddress, RequestParseError>(
                RequestParseError::MissingClientAddress,
            ),
            self.client_address matches Some(raw) ==> match ip_parse(raw@) {
                Some(ip) => r == Ok::<IpAddress, RequestParseError>(ip),
                None => r matches Err(RequestParseError::InvalidClientAddress(v)) && v@ == raw@,
            },
    {
        match &self.client_address {
            None => Err(RequestParseError::MissingClientAddress),
            Some(raw) => match IpAddress::parse(raw.as_str()) {
                Some(ip) => Ok(ip),
                None => Err(RequestParseError::InvalidClientAddress(raw.clone())),
            },
        }
    }
}

} // verus!
