//! The information held in the URL of a Tree Style Tab group tab.
use vstd::prelude::*;
use vstd::string::{StrSliceExecFns, StringExecFns};

verus! {

/// The URL that legacy group tabs start with.
pub const TST_LEGACY_GROUP_URL: &'static str = "about:treestyletab-group";

/// Whether `s` starts with `p`.
pub open spec fn has_prefix(s: Seq<char>, p: Seq<char>) -> bool {
    p.len() <= s.len() && s.subrange(0, p.len() as int) == p
}

/// What follows the first `n` characters of `s`.
pub open spec fn after(s: Seq<char>, n: int) -> Seq<char> {
    s.subrange(n, s.len() as int)
}

/// The first position at or after `i` that holds `c`.
pub open spec fn find_from(s: Seq<char>, c: char, i: int) -> Option<int>
    decreases s.len() - i,
{
    if i < 0 || i >= s.len() {
        None
    } else if s[i] == c {
        Some(i)
    } else {
        find_from(s, c, i + 1)
    }
}

/// The lower case form of `s`.
pub uninterp spec fn lower_of(s: Seq<char>) -> Seq<char>;

/// The boolean that `s` spells.
pub open spec fn parse_bool(s: Seq<char>) -> Option<bool> {
    if s == "true"@ {
        Some(true)
    } else if s == "false"@ {
        Some(false)
    } else {
        None
    }
}

/// The name and the temporary flag after the query `key=value` is read:
/// `title` sets the name, `temporary` the flag where its value spells a
/// boolean in any case; anything else changes nothing.
pub open spec fn apply_query(q: Seq<char>, name: Option<Seq<char>>, temp: Option<bool>) -> (
    Option<Seq<char>>,
    Option<bool>,
) {
    match find_from(q, '=', 0) {
        None => (name, temp),
        Some(k) => {
            let key = q.subrange(0, k);
            let value = after(q, k + 1);
            if key == "title"@ {
                (Some(value), temp)
            } else if key == "temporary"@ {
                match parse_bool(lower_of(value)) {
                    Some(b) => (name, Some(b)),
                    None => (name, temp),
                }
            } else {
                (name, temp)
            }
        },
    }
}

/// The name and the temporary flag after the queries of `q`, separated by
/// `&`, are read in turn.
pub open spec fn apply_queries(q: Seq<char>, name: Option<Seq<char>>, temp: Option<bool>) -> (
    Option<Seq<char>>,
    Option<bool>,
)
    decreases q.len(),
    via apply_queries_decreases
{
    match find_from(q, '&', 0) {
        None => apply_query(q, name, temp),
        Some(k) => {
            let (n2, t2) = apply_query(q.subrange(0, k), name, temp);
            apply_queries(after(q, k + 1), n2, t2)
        },
    }
}

proof fn lemma_find_from_bounds(s: Seq<char>, c: char, i: int)
    requires
        0 <= i,
    ensures
        find_from(s, c, i) matches Some(k) ==> i <= k < s.len() && s[k] == c && 0 <= k,
        find_from(s, c, i) is None ==> forall|j: int| i <= j < s.len() && 0 <= j ==> s[j] != c,
    decreases s.len() - i,
{
    if 0 <= i < s.len() && s[i] != c {
        lemma_find_from_bounds(s, c, i + 1);
    }
}

#[via_fn]
proof fn apply_queries_decreases(q: Seq<char>, name: Option<Seq<char>>, temp: Option<bool>) {
    lemma_find_from_bounds(q, '&', 0);
}

/// Name, temporary flag, internal id and URL arguments of a group tab.
pub type GroupTabView = (Option<Seq<char>>, Option<bool>, Option<Seq<char>>, Option<Seq<char>>);

/// The information of a URL whose arguments are `rest`, which sets the name
/// and the flag where it starts with `?`.
pub open spec fn with_query(rest: Seq<char>, internal_id: Option<Seq<char>>) -> GroupTabView {
    let (name, temp) = if has_prefix(rest, "?"@) {
        apply_queries(after(rest, 1), None, None)
    } else {
        (None, None)
    };
    (name, temp, internal_id, Some(rest))
}

/// What a group tab's URL tells, or `None` where `u` is not such a URL.
pub open spec fn parse_group_url(u: Seq<char>) -> Option<GroupTabView> {
    let legacy = "about:treestyletab-group"@;
    let start = "moz-extension://"@;
    let location = "resources/group-tab.html"@;
    let sidebery = "sidebery/group.html"@;
    if has_prefix(u, legacy) {
        Some(with_query(after(u, legacy.len() as int), None))
    } else if !has_prefix(u, start) {
        None
    } else {
        let u1 = after(u, start.len() as int);
        match find_from(u1, '/', 0) {
            None => None,
            Some(k) => {
                let id = u1.subrange(0, k);
                let u2 = after(u1, k + 1);
                if has_prefix(u2, location) {
                    Some(with_query(after(u2, location.len() as int), Some(id)))
                } else if has_prefix(u2, sidebery) {
                    let u3 = after(u2, sidebery.len() as int);
                    let args = if has_prefix(u3, "#"@) {
                        u3
                    } else {
                        Seq::empty()
                    };
                    Some((Some(args), None, Some(id), Some(args)))
                } else {
                    None
                }
            },
        }
    }
}

/// The start of a group tab's URL: the extension's page where the internal
/// id is known, else the legacy URL.
pub open spec fn group_url_base(v: GroupTabView) -> Seq<char> {
    match v.2 {
        Some(i) => "moz-extension://"@ + i + "/resources/group-tab.html"@,
        None => "about:treestyletab-group"@,
    }
}

/// The end of a group tab's URL: the URL arguments where they are known, or
/// else the title and the temporary flag that are known.
pub open spec fn group_url_tail(v: GroupTabView) -> Seq<char> {
    let (name, temp, id, args) = v;
    match args {
        Some(a) => a,
        None => {
            let title = match name {
                Some(n) => "?title="@ + n,
                None => Seq::empty(),
            };
            let flag = match temp {
                Some(t) => (if name is Some {
                    "&"@
                } else {
                    "?"@
                }) + "temporary="@ + (if t {
                    "true"@
                } else {
                    "false"@
                }),
                None => Seq::empty(),
            };
            title + flag
        },
    }
}

/// The URL of a group tab.
pub open spec fn group_url(v: GroupTabView) -> Seq<char> {
    group_url_base(v) + group_url_tail(v)
}

/// The view of an optional string.
pub open spec fn opt_view(s: Option<String>) -> Option<Seq<char>> {
    match s {
        Some(t) => Some(t@),
        None => None,
    }
}

/// Whether `s` starts with `p`.
fn starts_with(s: &str, p: &str) -> (r: bool)
    ensures
        r == has_prefix(s@, p@),
{
    let n = p.unicode_len();
    if n > s.unicode_len() {
        return false;
    }
    let mut i: usize = 0;
    while i < n
        invariant
            i <= n,
            n == p@.len(),
            n <= s@.len(),
            forall|j: int| 0 <= j < i ==> s@[j] == p@[j],
        decreases n - i,
    {
        if s.get_char(i) != p.get_char(i) {
            assert(s@.subrange(0, n as int)[i as int] != p@[i as int]);
            return false;
        }
        i = i + 1;
    }
    assert(s@.subrange(0, n as int) =~= p@);
    true
}

/// Whether `s` and `p` hold the same characters.
pub(crate) fn same_text(s: &str, p: &str) -> (r: bool)
    ensures
        r == (s@ == p@),
{
    if s.unicode_len() != p.unicode_len() {
        return false;
    }
    let r = starts_with(s, p);
    assert(s@.subrange(0, p@.len() as int) =~= s@);
    r
}

/// The first position that holds `c`.
fn find_char(s: &str, c: char) -> (r: Option<usize>)
    ensures
        match find_from(s@, c, 0) {
            Some(k) => r == Some(k as usize),
            None => r is None,
        },
        r matches Some(k) ==> k < s@.len() && s@[k as int] == c,
        s@.len() <= usize::MAX,
{
    proof {
        lemma_find_from_bounds(s@, c, 0);
    }
    let n = s.unicode_len();
    let mut i: usize = 0;
    while i < n
        invariant
            i <= n,
            n == s@.len(),
            find_from(s@, c, 0) == find_from(s@, c, i as int),
        decreases n - i,
    {
        if s.get_char(i) == c {
            return Some(i);
        }
        i = i + 1;
    }
    None
}

/// What follows the first `n` characters of `s`.
fn rest_of(s: &str, n: usize) -> (r: &str)
    requires
        n <= s@.len(),
    ensures
        r@ == after(s@, n as int),
{
    s.substring_char(n, s.unicode_len())
}

/// Relies on `str::to_lowercase`: the result depends on the characters alone.
#[verifier::external_body]
fn lowercase(s: &str) -> (r: String)
    ensures
        r@ == lower_of(s@),
{
    s.to_lowercase()
}

/// The boolean that `s` spells, as `bool`'s `FromStr` reads it.
fn parse_bool_text(s: &str) -> (r: Option<bool>)
    ensures
        r == parse_bool(s@),
{
    if same_text(s, "true") {
        Some(true)
    } else if same_text(s, "false") {
        Some(false)
    } else {
        None
    }
}

/// The parts of a group tab's URL.
#[derive(Debug, Default, Clone, PartialEq, Eq)]
pub struct GroupTabInfo {
    /// The title of the group tab, URL encoded.
    pub name_url_encoded: Option<String>,
    /// Whether the group tab is temporary.
    pub temporary: Option<bool>,
    /// The internal id of the extension; without one the group tab uses the
    /// legacy URL.
    pub internal_id: Option<String>,
    /// The arguments at the end of the URL. Where they are known, `temporary`
    /// and the name are not written separately.
    pub url_arguments: Option<String>,
}

impl GroupTabInfo {
    /// The name of a group tab whose URL gives none.
    pub fn default_name() -> (r: &'static str)
        ensures
            r@ == "Group"@,
    {
        "Group"
    }

    /// Name, temporary flag, internal id and URL arguments.
    pub open spec fn view_parts(&self) -> GroupTabView {
        (
            opt_view(self.name_url_encoded),
            self.temporary,
            opt_view(self.internal_id),
            opt_view(self.url_arguments),
        )
    }

    /// The URL of this group tab.
    pub fn to_url(&self) -> (r: String)
        ensures
            r@ == group_url(self.view_parts()),
    {
        let mut url = match &self.internal_id {
            Some(internal_id) => {
                let mut u = String::from_str("moz-extension://");
                u.append(internal_id.as_str());
                u.append("/resources/group-tab.html");
                u
            },
            None => String::from_str(TST_LEGACY_GROUP_URL),
        };
        match &self.url_arguments {
            Some(url_args) => {
                url.append(url_args.as_str());
            },
            None => {
                let ghost base = url@;
                if let Some(name) = &self.name_url_encoded {
                    url.append("?title=");
                    url.append(name.as_str());
                }
                let ghost with_title = url@;
                if let Some(temporary) = self.temporary {
                    if self.name_url_encoded.is_some() {
                        url.append("&");
                    } else {
                        url.append("?");
                    }
                    url.append("temporary=");
                    url.append(if temporary {
                        "true"
                    } else {
                        "false"
                    });
                }
                proof {
                    reveal_strlit("");
                }
                assert(url@ =~= base + group_url_tail(self.view_parts()));
            },
        }
        assert(url@ =~= group_url(self.view_parts()));
        url
    }

    /// The information of the query `q`, one `key=value` pair.
    fn apply_query(&mut self, q: &str)
        ensures
            (opt_view(final(self).name_url_encoded), final(self).temporary) == apply_query(
                q@,
                opt_view(old(self).name_url_encoded),
                old(self).temporary,
            ),
            final(self).internal_id == old(self).internal_id,
            final(self).url_arguments == old(self).url_arguments,
    {
        proof {
            lemma_find_from_bounds(q@, '=', 0);
        }
        if let Some(index) = find_char(q, '=') {
            let key = q.substring_char(0, index);
            let value = rest_of(q, index + 1);
            if same_text(key, "title") {
                self.name_url_encoded = Some(value.to_owned());
            } else if same_text(key, "temporary") {
                let lower = lowercase(value);
                if let Some(b) = parse_bool_text(lower.as_str()) {
                    self.temporary = Some(b);
                }
            }
        }
    }

    /// The information of the queries of `q`, separated by `&`.
    fn apply_queries(&mut self, q: &str)
        ensures
            (opt_view(final(self).name_url_encoded), final(self).temporary) == apply_queries(
                q@,
                opt_view(old(self).name_url_encoded),
                old(self).temporary,
            ),
            final(self).internal_id == old(self).internal_id,
            final(self).url_arguments == old(self).url_arguments,
    {
        let mut rest = q;
        loop
            invariant
                apply_queries(q@, opt_view(old(self).name_url_encoded), old(self).temporary)
                    == apply_queries(rest@, opt_view(self.name_url_encoded), self.temporary),
                self.internal_id == old(self).internal_id,
                self.url_arguments == old(self).url_arguments,
            decreases rest@.len(),
        {
            proof {
                lemma_find_from_bounds(rest@, '&', 0);
            }
            match find_char(rest, '&') {
                None => {
                    self.apply_query(rest);
                    return;
                },
                Some(index) => {
                    self.apply_query(rest.substring_char(0, index));
                    rest = rest_of(rest, index + 1);
                },
            }
        }
    }

    /// Parses a Tree Style Tab (or Sidebery) group tab URL, or returns `None`
    /// where `url` is not one.
    pub fn from_url(url: &str) -> (r: Option<Self>)
        ensures
            match parse_group_url(url@) {
                Some(v) => r matches Some(info) && v == (
                    opt_view(info.name_url_encoded),
                    info.temporary,
                    opt_view(info.internal_id),
                    opt_view(info.url_arguments),
                ),
                None => r is None,
            },
    {
        let mut info = GroupTabInfo {
            name_url_encoded: None,
            temporary: None,
            internal_id: None,
            url_arguments: None,
        };
        let rest: &str;
        if starts_with(url, TST_LEGACY_GROUP_URL) {
            rest = rest_of(url, TST_LEGACY_GROUP_URL.unicode_len());
        } else {
            let start = "moz-extension://";
            if !starts_with(url, start) {
                return None;
            }
            let u1 = rest_of(url, start.unicode_len());
            let separator_index = match find_char(u1, '/') {
                Some(k) => k,
                None => return None,
            };
            proof {
                lemma_find_from_bounds(u1@, '/', 0);
            }
            info.internal_id = Some(u1.substring_char(0, separator_index).to_owned());
            let u2 = rest_of(u1, separator_index + 1);
            let location = "resources/group-tab.html";
            let sidebery_location = "sidebery/group.html";
            if starts_with(u2, location) {
                rest = rest_of(u2, location.unicode_len());
            } else if starts_with(u2, sidebery_location) {
                let u3 = rest_of(u2, sidebery_location.unicode_len());
                proof {
                    reveal_strlit("");
                }
                let args = if starts_with(u3, "#") {
                    u3
                } else {
                    ""
                };
                info.url_arguments = Some(args.to_owned());
                info.name_url_encoded = Some(args.to_owned());
                return Some(info);
            } else {
                return None;
            }
        }
        info.url_arguments = Some(rest.to_owned());
        proof {
            reveal_strlit("?");
        }
        if starts_with(rest, "?") {
            info.apply_queries(rest_of(rest, 1));
        }
        Some(info)
    }
}

} // verus!
