//! The whitelist: clients, HELO names and domains that are exempted from
//! SPF checks, from the inline configuration and from external files of
//! `prefix:value` lines.
use vstd::prelude::*;

use crate::config::WhitelistConfig;
use crate::net::cidr_set::{any_contains, cidr_of_parts, ipnet_parse, is_ipnet_error};
use crate::net::{Cidr, CidrSet, IpAddress};
use crate::text::{
    ascii_lower, is_ascii_upper, lower_char, chars_eq, chars_eq_str, chars_of, ends_with, ends_with_chars, find_char, lines_exec, lines_of,
    lemma_index_of_from, lower_chars, lower_str, split_once, str_eq, string_of, sub_chars, trim, trim_chars, views,
};

verus! {

/// Which whitelist entry exempted a request.
#[derive(Debug, Clone, Copy, PartialEq, Eq, Structural)]
pub enum WhitelistReason {
    Ip,
    Helo,
    Domain,
    DomainPtr,
}

/// Why a whitelist could not be built.
#[derive(Debug)]
pub enum WhitelistError {
    /// An external file could not be read.
    Read { path: String, source: std::io::Error },
    /// A file line without one of the prefixes `ip:`, `helo:`, `domain:`, `ptr:`.
    UnrecognizedEntry { path: String, line: usize, entry: String },
    /// An `ip:` line whose value is no network.
    InvalidCidr { path: String, line: usize, value: String, source: ipnet::AddrParseError },
}

/// `WhitelistError` without its sources: path, line number and text.
pub enum WhitelistErrorView {
    Read(Seq<char>),
    UnrecognizedEntry(Seq<char>, nat, Seq<char>),
    InvalidCidr(Seq<char>, nat, Seq<char>),
}

impl View for WhitelistError {
    type V = WhitelistErrorView;

    open spec fn view(&self) -> WhitelistErrorView {
        match self {
            WhitelistError::Read { path, .. } => WhitelistErrorView::Read(path@),
            WhitelistError::UnrecognizedEntry { path, line, entry } => {
                WhitelistErrorView::UnrecognizedEntry(path@, *line as nat, entry@)
            },
            WhitelistError::InvalidCidr { path, line, value, .. } => {
                WhitelistErrorView::InvalidCidr(path@, *line as nat, value@)
            },
        }
    }
}

/// The contents of a whitelist. Names are kept ASCII lower-cased; the HELO
/// names form a set (no name twice).
pub struct WhitelistView {
    pub ips: Seq<Cidr>,
    pub helo_names: Seq<Seq<char>>,
    pub domains: Seq<Seq<char>>,
    pub domains_ptr: Seq<Seq<char>>,
}

/// Exempted networks, HELO names, domains (matched against the HELO name
/// and the sender domain) and reverse-DNS domains.
#[derive(Debug)]
pub struct Whitelist {
    ips: CidrSet,
    helo_names: Vec<String>,
    domains: Vec<String>,
    domains_ptr: Vec<String>,
}

impl View for Whitelist {
    type V = WhitelistView;

    closed spec fn view(&self) -> WhitelistView {
        WhitelistView {
            ips: self.ips@,
            helo_names: views(self.helo_names@),
            domains: views(self.domains@),
            domains_ptr: views(self.domains_ptr@),
        }
    }
}

impl Whitelist {
    #[verifier::type_invariant]
    spec fn helo_names_unique(self) -> bool {
        views(self.helo_names@).no_duplicates()
    }
}

/// `names` with `n` added unless it is there already.
pub open spec fn insert_name(names: Seq<Seq<char>>, n: Seq<char>) -> Seq<Seq<char>> {
    if names.contains(n) {
        names
    } else {
        names.push(n)
    }
}

/// `names` with the lower-cased `more` added one by one, as a set.
pub open spec fn add_names(names: Seq<Seq<char>>, more: Seq<Seq<char>>) -> Seq<Seq<char>>
    decreases more.len(),
{
    if more.len() == 0 {
        names
    } else {
        add_names(insert_name(names, ascii_lower(more[0])), more.skip(1))
    }
}

/// Each name ASCII lower-cased.
pub open spec fn lowered(names: Seq<Seq<char>>) -> Seq<Seq<char>> {
    names.map_values(|n: Seq<char>| ascii_lower(n))
}

/// The whitelist of the inline configuration alone.
pub open spec fn config_view(cfg: WhitelistConfig) -> WhitelistView {
    WhitelistView {
        ips: cfg.ips@,
        helo_names: add_names(Seq::empty(), views(cfg.helo_names@)),
        domains: lowered(views(cfg.domains@)),
        domains_ptr: lowered(views(cfg.domains_ptr@)),
    }
}

/// One (trimmed, non-empty, non-comment) file line applied to `wl`.
pub open spec fn apply_entry(wl: WhitelistView, path: Seq<char>, line_no: nat, line: Seq<char>) -> Result<
    WhitelistView,
    WhitelistErrorView,
> {
    match split_once(line, ':') {
        None => Err(WhitelistErrorView::UnrecognizedEntry(path, line_no, line)),
        Some((prefix, raw_value)) => {
            let value = trim(raw_value);
            if prefix == seq!['i', 'p'] {
                match ipnet_parse(value) {
                    None => Err(WhitelistErrorView::InvalidCidr(path, line_no, value)),
                    Some(t) => Ok(WhitelistView { ips: wl.ips.push(cidr_of_parts(t)), ..wl }),
                }
            } else if prefix == seq!['h', 'e', 'l', 'o'] {
                Ok(WhitelistView { helo_names: insert_name(wl.helo_names, ascii_lower(value)), ..wl })
            } else if prefix == seq!['d', 'o', 'm', 'a', 'i', 'n'] {
                Ok(WhitelistView { domains: wl.domains.push(ascii_lower(value)), ..wl })
            } else if prefix == seq!['p', 't', 'r'] {
                Ok(WhitelistView { domains_ptr: wl.domains_ptr.push(ascii_lower(value)), ..wl })
            } else {
                Err(WhitelistErrorView::UnrecognizedEntry(path, line_no, line))
            }
        },
    }
}

/// Whether a trimmed file line carries no entry (empty, or a `#` comment).
pub open spec fn is_blank_or_comment(t: Seq<char>) -> bool {
    t.len() == 0 || t[0] == '#'
}

/// The lines `lines` of the file `path`, numbered from `line_no`, applied
/// to `wl` in order; the first bad entry stops it.
pub open spec fn apply_lines(wl: WhitelistView, path: Seq<char>, lines: Seq<Seq<char>>, line_no: nat) -> Result<
    WhitelistView,
    WhitelistErrorView,
>
    decreases lines.len(),
{
    if lines.len() == 0 {
        Ok(wl)
    } else {
        let t = trim(lines[0]);
        let step = if is_blank_or_comment(t) {
            Ok(wl)
        } else {
            apply_entry(wl, path, line_no, t)
        };
        match step {
            Err(e) => Err(e),
            Ok(w) => apply_lines(w, path, lines.skip(1), line_no + 1),
        }
    }
}

/// The files `paths`, read as `contents`, applied to `wl` in order; the
/// first unreadable file or bad entry stops it.
pub open spec fn apply_files(
    wl: WhitelistView,
    paths: Seq<Seq<char>>,
    contents: Seq<Result<String, std::io::Error>>,
) -> Result<WhitelistView, WhitelistErrorView>
    decreases paths.len(),
{
    if paths.len() == 0 || contents.len() == 0 {
        Ok(wl)
    } else {
        match contents[0] {
            Err(_) => Err(WhitelistErrorView::Read(paths[0])),
            Ok(text) => match apply_lines(wl, paths[0], lines_of(text@), 1) {
                Err(e) => Err(e),
                Ok(w) => apply_files(w, paths.skip(1), contents.skip(1)),
            },
        }
    }
}

/// Whether `name` is `suffix` or a subdomain of it, ignoring ASCII case on
/// both sides.
pub open spec fn suffix_match(name: Seq<char>, suffix: Seq<char>) -> bool {
    ascii_lower(name) == ascii_lower(suffix) || ends_with(
        ascii_lower(name),
        seq!['.'] + ascii_lower(suffix),
    )
}

/// Whether `name` matches some domain of `domains`.
pub open spec fn any_suffix(domains: Seq<Seq<char>>, name: Seq<char>) -> bool {
    exists|i: int| 0 <= i < domains.len() && #[trigger] suffix_match(name, domains[i])
}

/// The first entry kind that a request matches, in the order: client
/// network, HELO name, domain of the HELO name, domain of the sender,
/// reverse-DNS domain of the client.
pub open spec fn match_reason(
    wl: WhitelistView,
    ip: IpAddress,
    helo: Seq<char>,
    mail_from_domain: Option<Seq<char>>,
    reverse_client_name: Option<Seq<char>>,
) -> Option<WhitelistReason> {
    if any_contains(wl.ips, ip) {
        Some(WhitelistReason::Ip)
    } else if wl.helo_names.contains(ascii_lower(helo)) {
        Some(WhitelistReason::Helo)
    } else if any_suffix(wl.domains, helo) {
        Some(WhitelistReason::Domain)
    } else if mail_from_domain matches Some(d) && any_suffix(wl.domains, d) {
        Some(WhitelistReason::Domain)
    } else if reverse_client_name matches Some(r) && any_suffix(wl.domains_ptr, r) {
        Some(WhitelistReason::DomainPtr)
    } else {
        None
    }
}

/// Whether `name` is `suffix` or a subdomain of it (ASCII case ignored).
pub fn matches_suffix(name: &str, suffix: &str) -> (r: bool)
    ensures
        r == suffix_match(name@, suffix@),
{
    let lower = chars_of(lower_str(name).as_str());
    let suffix_chars = chars_of(lower_str(suffix).as_str());
    if chars_eq(lower.as_slice(), suffix_chars.as_slice()) {
        return true;
    }
    let mut dotted: Vec<char> = Vec::new();
    dotted.push('.');
    let mut i: usize = 0;
    while i < suffix_chars.len()
        invariant
            i <= suffix_chars.len(),
            dotted@ == seq!['.'] + suffix_chars@.take(i as int),
        decreases suffix_chars.len() - i,
    {
        dotted.push(suffix_chars[i]);
        i = i + 1;
        assert(dotted@ =~= seq!['.'] + suffix_chars@.take(i as int));
    }
    assert(suffix_chars@.take(i as int) =~= ascii_lower(suffix@));
    ends_with_chars(lower.as_slice(), dotted.as_slice())
}

/// Whether `name` matches some domain of `domains`.
fn any_domain_matches(domains: &Vec<String>, name: &str) -> (r: bool)
    ensures
        r == any_suffix(views(domains@), name@),
{
    let mut i: usize = 0;
    while i < domains.len()
        invariant
            i <= domains.len(),
            forall|j: int| 0 <= j < i ==> !#[trigger] suffix_match(name@, views(domains@)[j]),
        decreases domains.len() - i,
    {
        assert(views(domains@)[i as int] == domains@[i as int]@);
        if matches_suffix(name, domains[i].as_str()) {
            return true;
        }
        i = i + 1;
    }
    false
}

/// Whether `names` holds `name`.
fn contains_name(names: &Vec<String>, name: &str) -> (r: bool)
    ensures
        r == views(names@).contains(name@),
{
    let mut i: usize = 0;
    while i < names.len()
        invariant
            i <= names.len(),
            forall|j: int| 0 <= j < i ==> views(names@)[j] != name@,
        decreases names.len() - i,
    {
        assert(views(names@)[i as int] == names@[i as int]@);
        if str_eq(names[i].as_str(), name) {
            return true;
        }
        i = i + 1;
    }
    false
}

/// ASCII lower-cased copies of `names`, in order.
fn lower_all(names: &Vec<String>) -> (r: Vec<String>)
    ensures
        views(r@) == lowered(views(names@)),
{
    let mut out: Vec<String> = Vec::new();
    let mut i: usize = 0;
    while i < names.len()
        invariant
            i <= names.len(),
            views(out@) =~= lowered(views(names@)).take(i as int),
        decreases names.len() - i,
    {
        let l = lower_str(names[i].as_str());
        let ghost before = out@;
        out.push(l);
        assert(views(out@) =~= views(before).push(l@));
        assert(lowered(views(names@))[i as int] == ascii_lower(names@[i as int]@));
        i = i + 1;
        assert(views(out@) =~= lowered(views(names@)).take(i as int));
    }
    assert(lowered(views(names@)).take(i as int) =~= lowered(views(names@)));
    out
}

/// Adds `name` to the HELO set unless it is there already.
fn insert_unique(names: &mut Vec<String>, name: String)
    requires
        views(old(names)@).no_duplicates(),
    ensures
        views(final(names)@) == insert_name(views(old(names)@), name@),
        views(final(names)@).no_duplicates(),
{
    if !contains_name(names, name.as_str()) {
        let ghost before = views(names@);
        names.push(name);
        assert(views(names@) =~= before.push(name@));
    }
}

impl Whitelist {
    /// The whitelist of the inline configuration (`cfg.files` aside).
    pub fn from_config(cfg: &WhitelistConfig) -> (r: Whitelist)
        ensures
            r@ == config_view(*cfg),
    {
        let mut helo_names: Vec<String> = Vec::new();
        let mut i: usize = 0;
        assert(views(cfg.helo_names@).skip(0) =~= views(cfg.helo_names@));
        assert(views(helo_names@) =~= Seq::<Seq<char>>::empty());
        while i < cfg.helo_names.len()
            invariant
                i <= cfg.helo_names.len(),
                views(helo_names@).no_duplicates(),
                add_names(Seq::empty(), views(cfg.helo_names@)) == add_names(
                    views(helo_names@),
                    views(cfg.helo_names@).skip(i as int),
                ),
            decreases cfg.helo_names.len() - i,
        {
            let l = lower_str(cfg.helo_names[i].as_str());
            proof {
                let rest = views(cfg.helo_names@).skip(i as int);
                assert(rest[0] == cfg.helo_names@[i as int]@);
                assert(rest.skip(1) =~= views(cfg.helo_names@).skip(i + 1));
            }
            insert_unique(&mut helo_names, l);
            i = i + 1;
        }
        assert(views(cfg.helo_names@).skip(i as int) =~= Seq::<Seq<char>>::empty());
        let domains = lower_all(&cfg.domains);
        let domains_ptr = lower_all(&cfg.domains_ptr);
        Whitelist { ips: cfg.ips.clone(), helo_names, domains, domains_ptr }
    }
}

/// A copy of `names` with the same texts.
fn clone_names(names: &Vec<String>) -> (r: Vec<String>)
    ensures
        views(r@) == views(names@),
{
    let mut out: Vec<String> = Vec::new();
    let mut i: usize = 0;
    while i < names.len()
        invariant
            i <= names.len(),
            views(out@) =~= views(names@).take(i as int),
        decreases names.len() - i,
    {
        let ghost before = out@;
        out.push(names[i].clone());
        assert(views(out@) =~= views(before).push(names@[i as int]@));
        i = i + 1;
        assert(views(out@) =~= views(names@).take(i as int));
    }
    assert(views(names@).take(i as int) =~= views(names@));
    out
}

/// Whether the characters `v` spell the word `w`.
fn is_word(v: &[char], w: &str) -> (r: bool)
    ensures
        r == (v@ == w@),
{
    chars_eq_str(v, w)
}

impl Clone for Whitelist {
    fn clone(&self) -> (r: Whitelist)
        ensures
            r@ == self@,
    {
        proof {
            use_type_invariant(self);
        }
        Whitelist {
            ips: self.ips.clone(),
            helo_names: clone_names(&self.helo_names),
            domains: clone_names(&self.domains),
            domains_ptr: clone_names(&self.domains_ptr),
        }
    }
}

impl Default for Whitelist {
    /// The empty whitelist.
    fn default() -> (r: Whitelist)
        ensures
            r@.ips.len() == 0,
            r@.helo_names.len() == 0,
            r@.domains.len() == 0,
            r@.domains_ptr.len() == 0,
    {
        let r = Whitelist {
            ips: CidrSet::empty(),
            helo_names: Vec::new(),
            domains: Vec::new(),
            domains_ptr: Vec::new(),
        };
        assert(views(r.helo_names@) =~= Seq::<Seq<char>>::empty());
        r
    }
}

impl Whitelist {
    /// Applies one trimmed file line: `ip:` adds a network, `helo:` a HELO
    /// name, `domain:` a domain, `ptr:` a reverse-DNS domain (names lower-cased,
    /// values trimmed). On an error the whitelist is left as it was.
    pub fn apply_file_line(&mut self, path: &str, line_no: usize, line: &str) -> (r: Result<(), WhitelistError>)
        ensures
            match r {
                Ok(()) => apply_entry(old(self)@, path@, line_no as nat, line@) == Ok::<WhitelistView, WhitelistErrorView>(final(self)@),
                Err(e) => apply_entry(old(self)@, path@, line_no as nat, line@) == Err::<WhitelistView, WhitelistErrorView>(e@)
                    && final(self)@ == old(self)@,
            },
            r matches Err(WhitelistError::InvalidCidr { value, source, .. }) ==> is_ipnet_error(
                value@,
                source,
            ),
            r matches Err(e) ==> !(e is Read),
    {
        proof {
            use_type_invariant(&*self);
        }
        let v = chars_of(line);
        let colon = match find_char(v.as_slice(), ':') {
            Some(i) => i,
            None => {
                return Err(
                    WhitelistError::UnrecognizedEntry {
                        path: String::from_str(path),
                        line: line_no,
                        entry: string_of(v.as_slice()),
                    },
                );
            },
        };
        let prefix = sub_chars(v.as_slice(), 0, colon);
        let raw_value = sub_chars(v.as_slice(), colon + 1, v.len());
        assert(prefix@ =~= line@.take(colon as int));
        assert(raw_value@ =~= line@.skip(colon + 1));
        let value = trim_chars(raw_value.as_slice());
        proof {
            reveal_strlit("ip");
            reveal_strlit("helo");
            reveal_strlit("domain");
            reveal_strlit("ptr");
            assert("ip"@ =~= seq!['i', 'p']);
            assert("helo"@ =~= seq!['h', 'e', 'l', 'o']);
            assert("domain"@ =~= seq!['d', 'o', 'm', 'a', 'i', 'n']);
            assert("ptr"@ =~= seq!['p', 't', 'r']);
        }
        if is_word(prefix.as_slice(), "ip") {
            let text = string_of(value.as_slice());
            match Cidr::parse(text.as_str()) {
                Ok(net) => {
                    let mut ips = CidrSet::empty();
                    std::mem::swap(&mut ips, &mut self.ips);
                    ips.push(net);
                    self.ips = ips;
                    Ok(())
                },
                Err(source) => Err(
                    WhitelistError::InvalidCidr {
                        path: String::from_str(path),
                        line: line_no,
                        value: text,
                        source,
                    },
                ),
            }
        } else if is_word(prefix.as_slice(), "helo") {
            let name = string_of(lower_chars(value.as_slice()).as_slice());
            let mut names: Vec<String> = Vec::new();
            std::mem::swap(&mut names, &mut self.helo_names);
            insert_unique(&mut names, name);
            self.helo_names = names;
            Ok(())
        } else if is_word(prefix.as_slice(), "domain") {
            let name = string_of(lower_chars(value.as_slice()).as_slice());
            let mut names: Vec<String> = Vec::new();
            std::mem::swap(&mut names, &mut self.domains);
            let ghost before = names@;
            names.push(name);
            assert(views(names@) =~= views(before).push(ascii_lower(value@)));
            self.domains = names;
            Ok(())
        } else if is_word(prefix.as_slice(), "ptr") {
            let name = string_of(lower_chars(value.as_slice()).as_slice());
            let mut names: Vec<String> = Vec::new();
            std::mem::swap(&mut names, &mut self.domains_ptr);
            let ghost before = names@;
            names.push(name);
            assert(views(names@) =~= views(before).push(ascii_lower(value@)));
            self.domains_ptr = names;
            Ok(())
        } else {
            Err(
                WhitelistError::UnrecognizedEntry {
                    path: String::from_str(path),
                    line: line_no,
                    entry: string_of(v.as_slice()),
                },
            )
        }
    }
}

/// `Option<&str>` by its text.
pub open spec fn opt_text(o: Option<&str>) -> Option<Seq<char>> {
    match o {
        Some(s) => Some(s@),
        None => None,
    }
}

impl Whitelist {
    /// Applies the lines of the file `path`, whose text is `text`: each line
    /// is trimmed, blank lines and `#` comments are skipped, and lines are
    /// numbered from 1. The first bad entry stops it.
    pub fn load_text(&mut self, path: &str, text: &str) -> (r: Result<(), WhitelistError>)
        ensures
            r is Ok ==> apply_lines(old(self)@, path@, lines_of(text@), 1) == Ok::<
                WhitelistView,
                WhitelistErrorView,
            >(final(self)@),
            r matches Err(e) ==> apply_lines(old(self)@, path@, lines_of(text@), 1) == Err::<
                WhitelistView,
                WhitelistErrorView,
            >(e@),
            r matches Err(WhitelistError::InvalidCidr { value, source, .. }) ==> is_ipnet_error(
                value@,
                source,
            ),
            r matches Err(e) ==> !(e is Read),
    {
        let chars = chars_of(text);
        let lines = lines_exec(chars.as_slice());
        let ghost all = lines_of(text@);
        let ghost start = self@;
        let mut idx: usize = 0;
        assert(all.skip(0) =~= all);
        while idx < lines.len()
            invariant
                idx <= lines.len(),
                all == lines@.map_values(|l: Vec<char>| l@),
                all == lines_of(text@),
                start == old(self)@,
                apply_lines(start, path@, all, 1) == apply_lines(self@, path@, all.skip(idx as int), idx as nat + 1),
            decreases lines.len() - idx,
        {
            let t = trim_chars(lines[idx].as_slice());
            proof {
                let rest = all.skip(idx as int);
                assert(rest[0] == lines@[idx as int]@);
                assert(rest.skip(1) =~= all.skip(idx + 1));
            }
            if t.len() == 0 || t[0] == '#' {
                idx = idx + 1;
            } else {
                let entry = string_of(t.as_slice());
                match self.apply_file_line(path, idx + 1, entry.as_str()) {
                    Ok(()) => {},
                    Err(e) => {
                        proof {
                            let rest = all.skip(idx as int);
                            assert(trim(rest[0]) == t@);
                            assert(!is_blank_or_comment(t@));
                        }
                        return Err(e);
                    },
                }
                idx = idx + 1;
            }
        }
        assert(all.skip(idx as int) =~= Seq::<Seq<char>>::empty());
        Ok(())
    }

    /// Builds the whitelist of `cfg`: the inline entries, then the entries
    /// of each file of `cfg.files`, whose texts (or read errors) are
    /// `file_contents`, in the same order. The first unreadable file or bad
    /// entry is the error.
    pub fn load(cfg: &WhitelistConfig, file_contents: Vec<Result<String, std::io::Error>>) -> (r: Result<Whitelist, WhitelistError>)
        requires
            file_contents@.len() == cfg.files@.len(),
        ensures
            r matches Ok(w) ==> apply_files(config_view(*cfg), views(cfg.files@), file_contents@)
                == Ok::<WhitelistView, WhitelistErrorView>(w@),
            r matches Err(e) ==> apply_files(config_view(*cfg), views(cfg.files@), file_contents@)
                == Err::<WhitelistView, WhitelistErrorView>(e@),
            r matches Err(WhitelistError::InvalidCidr { value, source, .. }) ==> is_ipnet_error(
                value@,
                source,
            ),
            r matches Err(WhitelistError::Read { source, .. }) ==> exists|i: int|
                0 <= i < file_contents@.len() && #[trigger] file_contents@[i] == Err::<
                    String,
                    std::io::Error,
                >(source),
    {
        let mut whitelist = Whitelist::from_config(cfg);
        let mut contents = file_contents;
        let ghost paths = views(cfg.files@);
        let ghost all = file_contents@;
        let mut i: usize = 0;
        assert(paths.skip(0) =~= paths);
        assert(all.skip(0) =~= all);
        while i < cfg.files.len()
            invariant
                i <= cfg.files.len(),
                paths == views(cfg.files@),
                all == file_contents@,
                all.len() == paths.len(),
                contents@ == all.skip(i as int),
                apply_files(config_view(*cfg), paths, all) == apply_files(whitelist@, paths.skip(i as int), contents@),
            decreases cfg.files.len() - i,
        {
            let ghost before = contents@;
            let ghost wl_before = whitelist@;
            let item = contents.remove(0);
            proof {
                assert(before[0] == item);
                let ps = paths.skip(i as int);
                assert(ps[0] == cfg.files@[i as int]@);
                assert(ps.skip(1) =~= paths.skip(i + 1));
                assert(contents@ =~= all.skip(i + 1));
                assert(all.skip(i as int).skip(1) =~= all.skip(i + 1));
            }
            match item {
                Ok(text) => {
                    match whitelist.load_text(cfg.files[i].as_str(), text.as_str()) {
                        Ok(()) => {},
                        Err(e) => {
                            assert(apply_files(wl_before, paths.skip(i as int), before) == Err::<WhitelistView, WhitelistErrorView>(e@));
                            return Err(e);
                        },
                    }
                },
                Err(source) => {
                    assert(all[i as int] == Err::<String, std::io::Error>(source));
                    let path = cfg.files[i].clone();
                    assert(apply_files(wl_before, paths.skip(i as int), before) == Err::<WhitelistView, WhitelistErrorView>(WhitelistErrorView::Read(path@)));
                    return Err(WhitelistError::Read { path, source });
                },
            }
            i = i + 1;
        }
        assert(paths.skip(i as int) =~= Seq::<Seq<char>>::empty());
        Ok(whitelist)
    }

    /// The first entry kind that the request matches: client network, HELO
    /// name (ASCII case ignored), domain of the HELO name, domain of the
    /// sender, reverse-DNS domain of the client.
    pub fn matches(
        &self,
        ip: IpAddress,
        helo: &str,
        mail_from_domain: Option<&str>,
        reverse_client_name: Option<&str>,
    ) -> (r: Option<WhitelistReason>)
        ensures
            r == match_reason(self@, ip, helo@, opt_text(mail_from_domain), opt_text(reverse_client_name)),
    {
        if self.ips.contains(ip) {
            return Some(WhitelistReason::Ip);
        }
        let lower = lower_str(helo);
        if contains_name(&self.helo_names, lower.as_str()) {
            return Some(WhitelistReason::Helo);
        }
        if any_domain_matches(&self.domains, helo) {
            return Some(WhitelistReason::Domain);
        }
        if let Some(domain) = mail_from_domain {
            if any_domain_matches(&self.domains, domain) {
                return Some(WhitelistReason::Domain);
            }
        }
        if let Some(reverse) = reverse_client_name {
            if any_domain_matches(&self.domains_ptr, reverse) {
                return Some(WhitelistReason::DomainPtr);
            }
        }
        None
    }
}

/// Whitelist matching depends on the HELO name, sender domain and
/// reverse-DNS name only up to ASCII case.
pub proof fn law_matching_ignores_ascii_case(
    wl: WhitelistView,
    ip: IpAddress,
    helo1: Seq<char>,
    helo2: Seq<char>,
    from1: Option<Seq<char>>,
    from2: Option<Seq<char>>,
    ptr1: Option<Seq<char>>,
    ptr2: Option<Seq<char>>,
)
    requires
        ascii_lower(helo1) == ascii_lower(helo2),
        from1 is Some <==> from2 is Some,
        from1 is Some ==> ascii_lower(from1->0) == ascii_lower(from2->0),
        ptr1 is Some <==> ptr2 is Some,
        ptr1 is Some ==> ascii_lower(ptr1->0) == ascii_lower(ptr2->0),
    ensures
        match_reason(wl, ip, helo1, from1, ptr1) == match_reason(wl, ip, helo2, from2, ptr2),
{
    assert(any_suffix(wl.domains, helo1) == any_suffix(wl.domains, helo2)) by {
        if any_suffix(wl.domains, helo1) {
            let i = choose|i: int| 0 <= i < wl.domains.len() && #[trigger] suffix_match(helo1, wl.domains[i]);
            assert(suffix_match(helo2, wl.domains[i]));
        }
        if any_suffix(wl.domains, helo2) {
            let i = choose|i: int| 0 <= i < wl.domains.len() && #[trigger] suffix_match(helo2, wl.domains[i]);
            assert(suffix_match(helo1, wl.domains[i]));
        }
    }
    if from1 is Some {
        let (a, b) = (from1->0, from2->0);
        assert(any_suffix(wl.domains, a) == any_suffix(wl.domains, b)) by {
            if any_suffix(wl.domains, a) {
                let i = choose|i: int| 0 <= i < wl.domains.len() && #[trigger] suffix_match(a, wl.domains[i]);
                assert(suffix_match(b, wl.domains[i]));
            }
            if any_suffix(wl.domains, b) {
                let i = choose|i: int| 0 <= i < wl.domains.len() && #[trigger] suffix_match(b, wl.domains[i]);
                assert(suffix_match(a, wl.domains[i]));
            }
        }
    }
    if ptr1 is Some {
        let (a, b) = (ptr1->0, ptr2->0);
        assert(any_suffix(wl.domains_ptr, a) == any_suffix(wl.domains_ptr, b)) by {
            if any_suffix(wl.domains_ptr, a) {
                let i = choose|i: int| 0 <= i < wl.domains_ptr.len() && #[trigger] suffix_match(a, wl.domains_ptr[i]);
                assert(suffix_match(b, wl.domains_ptr[i]));
            }
            if any_suffix(wl.domains_ptr, b) {
                let i = choose|i: int| 0 <= i < wl.domains_ptr.len() && #[trigger] suffix_match(b, wl.domains_ptr[i]);
                assert(suffix_match(a, wl.domains_ptr[i]));
            }
        }
    }
}

/// A domain entry matches itself and every subdomain of it, whatever the
/// ASCII case of either side.
pub proof fn law_domain_matches_its_subdomains(suffix: Seq<char>, label: Seq<char>)
    ensures
        suffix_match(suffix, suffix),
        suffix_match(label + seq!['.'] + suffix, suffix),
{
    let name = label + seq!['.'] + suffix;
    let dotted = seq!['.'] + ascii_lower(suffix);
    assert(ascii_lower(name) =~= ascii_lower(label) + dotted);
    assert(ascii_lower(name).skip(ascii_lower(name).len() - dotted.len()) =~= dotted);
}

/// Adding names keeps the names already there.
proof fn lemma_add_names_keeps(names: Seq<Seq<char>>, more: Seq<Seq<char>>, x: Seq<char>)
    requires
        names.contains(x),
    ensures
        add_names(names, more).contains(x),
    decreases more.len(),
{
    if more.len() > 0 {
        let next = insert_name(names, ascii_lower(more[0]));
        assert(next.contains(x)) by {
            if !names.contains(ascii_lower(more[0])) {
                let j = choose|j: int| 0 <= j < names.len() && names[j] == x;
                assert(next[j] == x);
            }
        }
        lemma_add_names_keeps(next, more.skip(1), x);
    }
}

/// Every added name ends up in the set, lower-cased.
proof fn lemma_add_names_contains(names: Seq<Seq<char>>, more: Seq<Seq<char>>, i: int)
    requires
        0 <= i < more.len(),
    ensures
        add_names(names, more).contains(ascii_lower(more[i])),
    decreases more.len(),
{
    let next = insert_name(names, ascii_lower(more[0]));
    if i == 0 {
        assert(next.contains(ascii_lower(more[0]))) by {
            if !names.contains(ascii_lower(more[0])) {
                assert(next[names.len() as int] == ascii_lower(more[0]));
            }
        }
        lemma_add_names_keeps(next, more.skip(1), ascii_lower(more[0]));
    } else {
        assert(more.skip(1)[i - 1] == more[i]);
        lemma_add_names_contains(next, more.skip(1), i - 1);
    }
}

/// A configured HELO name exempts every request that gives it as its HELO
/// name, in any ASCII case.
pub proof fn law_configured_helo_name_exempts(
    cfg: WhitelistConfig,
    i: int,
    ip: IpAddress,
    helo: Seq<char>,
    mail_from_domain: Option<Seq<char>>,
    reverse_client_name: Option<Seq<char>>,
)
    requires
        0 <= i < cfg.helo_names@.len(),
        ascii_lower(helo) == ascii_lower(cfg.helo_names@[i]@),
    ensures
        match_reason(config_view(cfg), ip, helo, mail_from_domain, reverse_client_name) is Some,
{
    assert(views(cfg.helo_names@)[i] == cfg.helo_names@[i]@);
    lemma_add_names_contains(Seq::empty(), views(cfg.helo_names@), i);
}

/// A configured domain exempts every request whose HELO name is that
/// domain or one of its subdomains, in any ASCII case.
pub proof fn law_configured_domain_exempts(
    cfg: WhitelistConfig,
    i: int,
    ip: IpAddress,
    label: Seq<char>,
    mail_from_domain: Option<Seq<char>>,
    reverse_client_name: Option<Seq<char>>,
)
    requires
        0 <= i < cfg.domains@.len(),
    ensures
        match_reason(config_view(cfg), ip, cfg.domains@[i]@, mail_from_domain, reverse_client_name)
            is Some,
        match_reason(
            config_view(cfg),
            ip,
            label + seq!['.'] + cfg.domains@[i]@,
            mail_from_domain,
            reverse_client_name,
        ) is Some,
{
    let d = cfg.domains@[i]@;
    let wl = config_view(cfg);
    assert(wl.domains[i] == ascii_lower(d));
    lemma_ascii_lower_idempotent(d);
    law_domain_matches_its_subdomains(d, label);
    assert(suffix_match(d, wl.domains[i]));
    assert(suffix_match(label + seq!['.'] + d, wl.domains[i]));
}

/// Lower-casing twice is lower-casing once.
proof fn lemma_ascii_lower_idempotent(s: Seq<char>)
    ensures
        ascii_lower(ascii_lower(s)) == ascii_lower(s),
{
    assert forall|k: int| 0 <= k < s.len() implies #[trigger] ascii_lower(ascii_lower(s))[k]
        == ascii_lower(s)[k] by {
        let c = s[k];
        if is_ascii_upper(c) {
            assert((c as u32) + 32 <= 'z' as u32);
            assert(!is_ascii_upper(lower_char(c)));
        }
    }
    assert(ascii_lower(ascii_lower(s)) =~= ascii_lower(s));
}

/// Inserting a name keeps the names already there and adds the new one.
proof fn lemma_insert_name(names: Seq<Seq<char>>, n: Seq<char>, x: Seq<char>)
    ensures
        insert_name(names, n).contains(n),
        names.contains(x) ==> insert_name(names, n).contains(x),
{
    if !names.contains(n) {
        assert(names.push(n)[names.len() as int] == n);
        if names.contains(x) {
            let i = choose|i: int| 0 <= i < names.len() && names[i] == x;
            assert(names.push(n)[i] == x);
        }
    }
}

/// An entry never drops a HELO name.
proof fn lemma_entry_keeps_helo_names(
    wl: WhitelistView,
    path: Seq<char>,
    line_no: nat,
    line: Seq<char>,
    x: Seq<char>,
)
    requires
        apply_entry(wl, path, line_no, line) is Ok,
        wl.helo_names.contains(x),
    ensures
        apply_entry(wl, path, line_no, line)->Ok_0.helo_names.contains(x),
{
    if let Some((_, raw_value)) = split_once(line, ':') {
        lemma_insert_name(wl.helo_names, ascii_lower(trim(raw_value)), x);
    }
}

/// A `helo:` entry adds its value, lower-cased, to the HELO names.
proof fn lemma_helo_entry_adds(wl: WhitelistView, path: Seq<char>, line_no: nat, name: Seq<char>)
    ensures
        apply_entry(wl, path, line_no, seq!['h', 'e', 'l', 'o', ':'] + name) is Ok,
        apply_entry(wl, path, line_no, seq!['h', 'e', 'l', 'o', ':'] + name)->Ok_0.helo_names.contains(
            ascii_lower(trim(name)),
        ),
{
    let t = seq!['h', 'e', 'l', 'o', ':'] + name;
    lemma_index_of_from(t, ':', 0);
    assert(t[4] == ':');
    assert(t.take(4) =~= seq!['h', 'e', 'l', 'o']);
    assert(t.skip(5) =~= name);
    assert(split_once(t, ':') == Some((seq!['h', 'e', 'l', 'o'], name)));
    lemma_insert_name(wl.helo_names, ascii_lower(trim(name)), ascii_lower(trim(name)));
}

/// Applying file lines never drops a HELO name.
proof fn lemma_lines_keep_helo_names(
    wl: WhitelistView,
    path: Seq<char>,
    lines: Seq<Seq<char>>,
    line_no: nat,
    x: Seq<char>,
)
    requires
        apply_lines(wl, path, lines, line_no) is Ok,
        wl.helo_names.contains(x),
    ensures
        apply_lines(wl, path, lines, line_no)->Ok_0.helo_names.contains(x),
    decreases lines.len(),
{
    if lines.len() > 0 {
        let t = trim(lines[0]);
        if is_blank_or_comment(t) {
            lemma_lines_keep_helo_names(wl, path, lines.skip(1), line_no + 1, x);
        } else {
            lemma_entry_keeps_helo_names(wl, path, line_no, t, x);
            let w = apply_entry(wl, path, line_no, t)->Ok_0;
            lemma_lines_keep_helo_names(w, path, lines.skip(1), line_no + 1, x);
        }
    }
}

/// A file line `helo:NAME` (trimmed) puts NAME, trimmed and lower-cased,
/// among the HELO names.
proof fn lemma_lines_add_helo_name(
    wl: WhitelistView,
    path: Seq<char>,
    lines: Seq<Seq<char>>,
    line_no: nat,
    j: int,
    name: Seq<char>,
)
    requires
        apply_lines(wl, path, lines, line_no) is Ok,
        0 <= j < lines.len(),
        trim(lines[j]) == seq!['h', 'e', 'l', 'o', ':'] + name,
    ensures
        apply_lines(wl, path, lines, line_no)->Ok_0.helo_names.contains(ascii_lower(trim(name))),
    decreases lines.len(),
{
    let t = trim(lines[0]);
    if j == 0 {
        assert(t[0] == 'h');
        lemma_helo_entry_adds(wl, path, line_no, name);
        let w = apply_entry(wl, path, line_no, t)->Ok_0;
        lemma_lines_keep_helo_names(w, path, lines.skip(1), line_no + 1, ascii_lower(trim(name)));
    } else {
        assert(lines.skip(1)[j - 1] == lines[j]);
        let w = if is_blank_or_comment(t) {
            wl
        } else {
            apply_entry(wl, path, line_no, t)->Ok_0
        };
        lemma_lines_add_helo_name(w, path, lines.skip(1), line_no + 1, j - 1, name);
    }
}

/// Applying files never drops a HELO name.
proof fn lemma_files_keep_helo_names(
    wl: WhitelistView,
    paths: Seq<Seq<char>>,
    contents: Seq<Result<String, std::io::Error>>,
    x: Seq<char>,
)
    requires
        apply_files(wl, paths, contents) is Ok,
        wl.helo_names.contains(x),
    ensures
        apply_files(wl, paths, contents)->Ok_0.helo_names.contains(x),
    decreases paths.len(),
{
    if paths.len() > 0 && contents.len() > 0 {
        if let Ok(text) = contents[0] {
            lemma_lines_keep_helo_names(wl, paths[0], lines_of(text@), 1, x);
            let w = apply_lines(wl, paths[0], lines_of(text@), 1)->Ok_0;
            lemma_files_keep_helo_names(w, paths.skip(1), contents.skip(1), x);
        }
    }
}

/// A HELO name listed in a whitelist file exempts every request that gives
/// it as its HELO name, in any ASCII case: when the files load, and file
/// `k` has a line that reads `helo:NAME` once trimmed, a request whose HELO
/// name equals NAME (trimmed) up to ASCII case is exempted.
pub proof fn law_file_helo_name_exempts(
    wl: WhitelistView,
    paths: Seq<Seq<char>>,
    contents: Seq<Result<String, std::io::Error>>,
    k: int,
    j: int,
    name: Seq<char>,
    ip: IpAddress,
    helo: Seq<char>,
    mail_from_domain: Option<Seq<char>>,
    reverse_client_name: Option<Seq<char>>,
)
    requires
        apply_files(wl, paths, contents) is Ok,
        0 <= k < paths.len(),
        0 <= k < contents.len(),
        contents[k] matches Ok(text) && 0 <= j < lines_of(text@).len() && trim(lines_of(text@)[j])
            == seq!['h', 'e', 'l', 'o', ':'] + name,
        ascii_lower(helo) == ascii_lower(trim(name)),
    ensures
        match_reason(
            apply_files(wl, paths, contents)->Ok_0,
            ip,
            helo,
            mail_from_domain,
            reverse_client_name,
        ) is Some,
    decreases k,
{
    if let Ok(text) = contents[0] {
        let lines = lines_of(text@);
        let w = apply_lines(wl, paths[0], lines, 1)->Ok_0;
        if k == 0 {
            lemma_lines_add_helo_name(wl, paths[0], lines, 1, j, name);
            lemma_files_keep_helo_names(w, paths.skip(1), contents.skip(1), ascii_lower(trim(name)));
        } else {
            assert(paths.skip(1)[k - 1] == paths[k]);
            assert(contents.skip(1)[k - 1] == contents[k]);
            law_file_helo_name_exempts(
                w,
                paths.skip(1),
                contents.skip(1),
                k - 1,
                j,
                name,
                ip,
                helo,
                mail_from_domain,
                reverse_client_name,
            );
        }
    }
}

} // verus!
