//! The canonical artifact identifier.
//!
//! A `Tag` is a validated, lowercase `(name, version)` pair. Both fields are
//! normalized and checked eagerly at construction, so every `Tag` that exists
//! satisfies the fragment rules; mutation re-validates the same way. Tags
//! parse from and print to the textual form `name` or `name:version`, project
//! to registry paths, and carry a strict partial order: names order
//! lexicographically, equal names order by version with a versioned tag above
//! the unversioned one, and two unversioned tags of one name are incomparable.

use core::cmp::Ordering;
use vstd::prelude::*;
use vstd::string::*;

use crate::errors::TagError;
use crate::order::{lemma_lex_cmp_antisym, lemma_lex_cmp_eq, lemma_lex_cmp_trans, lex_cmp_seq,
    lex_cmp_str};
use crate::validate::{fragment_ok, is_tag_char, lemma_valid_lower_identity, lower_seq,
    to_lowercase_string, valid_tag_seq, validate_result, validate_tag_str};
use crate::version::is_lower_base32;

verus! {

/// Mathematical model of a tag: its two fragments as character sequences.
#[verifier::ext_equal]
pub ghost struct TagView {
    pub name: Seq<char>,
    pub version: Option<Seq<char>>,
}

impl TagView {
    /// Both fragments satisfy the validation rule; every constructed `Tag`
    /// has a well-formed view.
    pub open spec fn wf(self) -> bool {
        &&& fragment_ok(self.name)
        &&& match self.version {
            Some(v) => fragment_ok(v),
            None => None::<Seq<char>> == self.version,
        }
    }
}

/// Identity of an artifact: a validated name and an optional validated
/// version, both stored lowercase.
#[derive(Debug, Hash)]
pub struct Tag {
    pub(crate) name: String,
    pub(crate) version: Option<String>,
}

impl View for Tag {
    type V = TagView;

    closed spec fn view(&self) -> TagView {
        TagView {
            name: self.name@,
            version: match self.version {
                Some(v) => Some(v@),
                None => None,
            },
        }
    }
}

/// Crate-internal bridge between a tag's stored fields and its abstract
/// view.
pub(crate) proof fn lemma_tag_view(t: &Tag)
    ensures
        t@.name == t.name@,
        t@.version == opt_view(t.version),
{
}

/// View of an optional fragment handed to construction.
pub open spec fn opt_view(v: Option<String>) -> Option<Seq<char>> {
    match v {
        Some(s) => Some(s@),
        None => None,
    }
}

/// What construction produces: both fragments lowercased, the name
/// validated before the version, the first failure reported.
pub open spec fn construct_spec(name: Seq<char>, version: Option<Seq<char>>) -> Result<
    TagView,
    TagError,
> {
    let ln = lower_seq(name);
    match validate_result(ln) {
        Err(e) => Err(e),
        Ok(u) => match version {
            None => Ok(TagView { name: ln, version: None }),
            Some(v) => {
                let lv = lower_seq(v);
                match validate_result(lv) {
                    Err(e) => Err(e),
                    Ok(u2) => Ok(TagView { name: ln, version: Some(lv) }),
                }
            },
        },
    }
}

/// Textual form: `name:version` when a version is present, bare `name`
/// otherwise.
pub open spec fn to_string_spec(v: TagView) -> Seq<char> {
    match v.version {
        Some(ver) => v.name + seq![':'] + ver,
        None => v.name,
    }
}

/// Path projection: `name/version` when a version is present, bare `name`
/// otherwise.
pub open spec fn path_spec(v: TagView) -> Seq<char> {
    match v.version {
        Some(ver) => v.name + seq!['/'] + ver,
        None => v.name,
    }
}

/// Index of the first `:` in `s`, or `s.len()` when there is none.
pub open spec fn first_colon(s: Seq<char>) -> int
    decreases s.len(),
{
    if s.len() == 0 {
        0
    } else if s[0] == ':' {
        0
    } else {
        1 + first_colon(s.drop_first())
    }
}

/// `first_colon` points at the first separator: everything before it is
/// colon-free, and it lands on a `:` unless there is none at all.
pub proof fn lemma_first_colon_props(s: Seq<char>)
    ensures
        0 <= first_colon(s) <= s.len(),
        first_colon(s) < s.len() ==> s[first_colon(s)] == ':',
        forall|j: int| 0 <= j < first_colon(s) ==> s[j] != ':',
    decreases s.len(),
{
    if s.len() == 0 {
    } else if s[0] == ':' {
    } else {
        lemma_first_colon_props(s.drop_first());
        assert forall|j: int| 0 <= j < first_colon(s) implies s[j] != ':' by {
            if j > 0 {
                assert(s.drop_first()[j - 1] == s[j]);
            }
        }
        if first_colon(s) < s.len() {
            assert(s[first_colon(s)] == s.drop_first()[first_colon(s.drop_first())]);
        }
    }
}

/// Any index with the "first colon" property is `first_colon(s)`.
pub proof fn lemma_first_colon_unique(s: Seq<char>, i: int)
    requires
        0 <= i <= s.len(),
        forall|j: int| 0 <= j < i ==> s[j] != ':',
        i < s.len() ==> s[i] == ':',
    ensures
        first_colon(s) == i,
{
    lemma_first_colon_props(s);
    let f = first_colon(s);
    if f < i {
        assert(s[f] != ':');
    } else if i < f {
        assert(s[i] != ':');
    }
}

/// What parsing produces: split on the first `:`, reject a second one with
/// `MalformedTag`, but only after both fragments have been validated.
pub open spec fn parse_spec(s: Seq<char>) -> Result<TagView, TagError> {
    let c1 = first_colon(s);
    if c1 == s.len() {
        construct_spec(s, None)
    } else {
        let name = s.subrange(0, c1);
        let rest = s.subrange(c1 + 1, s.len() as int);
        let c2 = first_colon(rest);
        if c2 == rest.len() {
            construct_spec(name, Some(rest))
        } else {
            match validate_result(lower_seq(name)) {
                Err(e) => Err(e),
                Ok(u) => match validate_result(lower_seq(rest.subrange(0, c2))) {
                    Err(e) => Err(e),
                    Ok(u2) => Err(TagError::MalformedTag),
                },
            }
        }
    }
}

/// The strict partial order on tags: names decide lexicographically; for
/// equal names, versions decide, a versioned tag ranking above the
/// unversioned one; two unversioned tags of one name are incomparable.
pub open spec fn tag_cmp(a: TagView, b: TagView) -> Option<Ordering> {
    if lex_cmp_seq(a.name, b.name) == Ordering::Less {
        Some(Ordering::Less)
    } else if lex_cmp_seq(a.name, b.name) == Ordering::Greater {
        Some(Ordering::Greater)
    } else {
        match (a.version, b.version) {
            (Some(x), Some(y)) => Some(lex_cmp_seq(x, y)),
            (Some(x), None) => Some(Ordering::Greater),
            (None, Some(y)) => Some(Ordering::Less),
            (None, None) => None,
        }
    }
}

impl Tag {
    /// Builds a tag from a name and an optional version: both are
    /// lowercased and validated (name first), the first violation is
    /// returned, and on success the tag holds exactly the normalized
    /// fragments.
    pub fn new(name: String, version: Option<String>) -> (r: Result<Tag, TagError>)
        ensures
            match r {
                Ok(t) => construct_spec(name@, opt_view(version)) == Ok::<TagView, TagError>(t@)
                    && t@.wf(),
                Err(e) => construct_spec(name@, opt_view(version)) == Err::<TagView, TagError>(e),
            },
    {
        let lname = to_lowercase_string(name.as_str());
        match validate_tag_str(lname.as_str()) {
            Err(e) => Err(e),
            Ok(u) => match version {
                None => Ok(Tag { name: lname, version: None }),
                Some(v) => {
                    let lv = to_lowercase_string(v.as_str());
                    match validate_tag_str(lv.as_str()) {
                        Err(e) => Err(e),
                        Ok(u2) => Ok(Tag { name: lname, version: Some(lv) }),
                    }
                },
            },
        }
    }

    /// The stored name, already lowercase and validated.
    pub fn name(&self) -> (r: &String)
        ensures
            r@ == self@.name,
    {
        &self.name
    }

    /// The stored version, already lowercase and validated when present.
    pub fn version(&self) -> (r: &Option<String>)
        ensures
            opt_view(*r) == self@.version,
    {
        &self.version
    }

    /// Replaces the name, lowercasing and re-validating exactly as
    /// construction does; on failure the tag is unchanged.
    pub fn set_name(&mut self, name: String) -> (r: Result<(), TagError>)
        ensures
            match r {
                Ok(u) => final(self)@ == (TagView { name: lower_seq(name@), ..old(self)@ })
                    && validate_result(lower_seq(name@)) == Ok::<(), TagError>(()),
                Err(e) => final(self)@ == old(self)@ && validate_result(lower_seq(name@))
                    == Err::<(), TagError>(e),
            },
    {
        let lname = to_lowercase_string(name.as_str());
        match validate_tag_str(lname.as_str()) {
            Err(e) => Err(e),
            Ok(u) => {
                self.name = lname;
                Ok(())
            },
        }
    }

    /// Replaces the version, lowercasing and re-validating exactly as
    /// construction does; on failure the tag is unchanged.
    pub fn set_version(&mut self, version: Option<String>) -> (r: Result<(), TagError>)
        ensures
            match r {
                Ok(u) => match opt_view(version) {
                    Some(v) => final(self)@ == (TagView {
                        version: Some(lower_seq(v)),
                        ..old(self)@
                    }) && validate_result(lower_seq(v)) == Ok::<(), TagError>(()),
                    None => final(self)@ == (TagView { version: None, ..old(self)@ }),
                },
                Err(e) => final(self)@ == old(self)@ && match opt_view(version) {
                    Some(v) => validate_result(lower_seq(v)) == Err::<(), TagError>(e),
                    None => false,
                },
            },
    {
        match version {
            None => {
                self.version = None;
                Ok(())
            },
            Some(v) => {
                let lv = to_lowercase_string(v.as_str());
                match validate_tag_str(lv.as_str()) {
                    Err(e) => Err(e),
                    Ok(u) => {
                        self.version = Some(lv);
                        Ok(())
                    },
                }
            },
        }
    }

    /// Renders `name:version`, or bare `name` when no version is present.
    pub fn to_string(&self) -> (r: String)
        ensures
            r@ == to_string_spec(self@),
    {
        match &self.version {
            Some(v) => {
                let mut r = String::from_str(self.name.as_str());
                r.append(":");
                r.append(v.as_str());
                proof {
                    reveal_strlit(":");
                    assert(":"@ =~= seq![':']);
                    assert(r@ =~= to_string_spec(self@));
                }
                r
            },
            None => String::from_str(self.name.as_str()),
        }
    }

    /// Projects the tag to a relative directory path, `name/version` or
    /// bare `name`.
    pub fn path(&self) -> (r: String)
        ensures
            r@ == path_spec(self@),
    {
        match &self.version {
            Some(v) => {
                let mut r = String::from_str(self.name.as_str());
                r.append("/");
                r.append(v.as_str());
                proof {
                    reveal_strlit("/");
                    assert("/"@ =~= seq!['/']);
                    assert(r@ =~= path_spec(self@));
                }
                r
            },
            None => String::from_str(self.name.as_str()),
        }
    }

    /// The reserved sentinel path `name/latest`, distinct from every real
    /// version's path.
    pub fn latest_path(&self) -> (r: String)
        ensures
            r@ == self@.name + seq!['/', 'l', 'a', 't', 'e', 's', 't'],
    {
        let mut r = String::from_str(self.name.as_str());
        r.append("/latest");
        proof {
            reveal_strlit("/latest");
            assert("/latest"@ =~= seq!['/', 'l', 'a', 't', 'e', 's', 't']);
            assert(r@ =~= self@.name + seq!['/', 'l', 'a', 't', 'e', 's', 't']);
        }
        r
    }

    /// Diagnostic rendering: `Tag(name=n, version=v)`, or `Tag(name=n)`
    /// without a version.
    pub fn repr(&self) -> (r: String)
        ensures
            r@ == match self@.version {
                Some(ver) => "Tag(name="@ + self@.name + ", version="@ + ver + ")"@,
                None => "Tag(name="@ + self@.name + ")"@,
            },
    {
        let mut r = String::from_str("Tag(name=");
        r.append(self.name.as_str());
        match &self.version {
            Some(v) => {
                r.append(", version=");
                r.append(v.as_str());
                r.append(")");
            },
            None => {
                r.append(")");
            },
        }
        r
    }

    /// Parses `name` or `name:version`, normalizing and validating as
    /// construction does; a string with more than one `:` fails with
    /// `MalformedTag` after its first two fragments validated.
    pub fn from_str(s: &str) -> (r: Result<Tag, TagError>)
        ensures
            match r {
                Ok(t) => parse_spec(s@) == Ok::<TagView, TagError>(t@) && t@.wf(),
                Err(e) => parse_spec(s@) == Err::<TagView, TagError>(e),
            },
    {
        let len = s.unicode_len();
        let mut c1: usize = 0;
        while c1 < len && s.get_char(c1) != ':'
            invariant
                c1 <= len,
                len == s@.len(),
                forall|j: int| 0 <= j < c1 ==> s@[j] != ':',
            decreases len - c1,
        {
            c1 += 1;
        }
        proof {
            lemma_first_colon_unique(s@, c1 as int);
        }
        if c1 == len {
            return Tag::new(String::from_str(s), None);
        }
        let name_str = s.substring_char(0, c1);
        let mut c2: usize = c1 + 1;
        while c2 < len && s.get_char(c2) != ':'
            invariant
                c1 < c2 <= len,
                len == s@.len(),
                forall|j: int| c1 < j < c2 ==> s@[j] != ':',
            decreases len - c2,
        {
            c2 += 1;
        }
        let ghost rest = s@.subrange(c1 + 1, len as int);
        proof {
            assert forall|j: int| 0 <= j < c2 - c1 - 1 implies rest[j] != ':' by {
                assert(rest[j] == s@[c1 + 1 + j]);
            }
            if c2 < len {
                assert(rest[c2 - c1 - 1] == s@[c2 as int]);
            }
            lemma_first_colon_unique(rest, c2 - c1 - 1);
        }
        if c2 == len {
            let ver_str = s.substring_char(c1 + 1, len);
            return Tag::new(String::from_str(name_str), Some(String::from_str(ver_str)));
        }
        let lname = to_lowercase_string(name_str);
        if let Err(e) = validate_tag_str(lname.as_str()) {
            return Err(e);
        }
        let ver_str = s.substring_char(c1 + 1, c2);
        let ghost ver_seq = rest.subrange(0, c2 - c1 - 1);
        proof {
            assert(ver_str@ =~= ver_seq);
        }
        let lver = to_lowercase_string(ver_str);
        if let Err(e) = validate_tag_str(lver.as_str()) {
            return Err(e);
        }
        Err(TagError::MalformedTag)
    }
}

impl Tag {
    /// A new tag of the same name with a freshly generated, time-derived
    /// version: sixteen lowercased base32 symbols. The generated fragment is
    /// proved valid, so unlike construction this can never fail.
    pub fn make_new_version(&self) -> (r: Tag)
        requires
            self@.wf(),
        ensures
            r@.name == self@.name,
            match r@.version {
                Some(v) => v.len() == 16 && fragment_ok(v) && (forall|i: int|
                    0 <= i < v.len() ==> is_lower_base32(#[trigger] v[i])),
                None => false,
            },
            r@.wf(),
    {
        let ver = crate::version::fresh_version();
        let t = Tag { name: self.name.clone(), version: Some(ver) };
        proof {
            lemma_tag_view(self);
            lemma_tag_view(&t);
        }
        t
    }
}

/// Either an already-built tag or its textual form: the two kinds of input
/// accepted where an identifier is expected.
pub enum TagLike {
    Tag(Tag),
    Str(String),
}

impl Tag {
    /// Resolves a `TagLike` once at the boundary: a tag passes through
    /// unchanged, a string is parsed as `from_str` does.
    pub fn from_taglike(taglike: TagLike) -> (r: Result<Tag, TagError>)
        ensures
            match taglike {
                TagLike::Tag(t) => r == Ok::<Tag, TagError>(t),
                TagLike::Str(s) => match r {
                    Ok(t) => parse_spec(s@) == Ok::<TagView, TagError>(t@) && t@.wf(),
                    Err(e) => parse_spec(s@) == Err::<TagView, TagError>(e),
                },
            },
    {
        match taglike {
            TagLike::Tag(t) => Ok(t),
            TagLike::Str(s) => Tag::from_str(s.as_str()),
        }
    }
}

impl Clone for Tag {
    /// Cloning preserves the tag exactly.
    fn clone(&self) -> (r: Self)
        ensures
            r == *self,
    {
        let version = match &self.version {
            Some(v) => Some(v.clone()),
            None => None,
        };
        Tag { name: self.name.clone(), version }
    }
}

impl PartialEq for Tag {
    /// Structural equality over the normalized `(name, version)` pair.
    fn eq(&self, other: &Tag) -> (r: bool) {
        match (&self.version, &other.version) {
            (Some(a), Some(b)) => {
                let r = self.name == other.name && *a == *b;
                proof {
                    if r {
                        assert(self@ =~= other@);
                    }
                }
                r
            },
            (None, None) => {
                let r = self.name == other.name;
                proof {
                    if r {
                        assert(self@ =~= other@);
                    }
                }
                r
            },
            _ => false,
        }
    }
}

impl vstd::std_specs::cmp::PartialEqSpecImpl for Tag {
    open spec fn obeys_eq_spec() -> bool {
        true
    }

    open spec fn eq_spec(&self, other: &Tag) -> bool {
        self@ == other@
    }
}

impl PartialOrd for Tag {
    /// The strict partial order of `tag_cmp`: `None` exactly for two
    /// unversioned tags of one name.
    fn partial_cmp(&self, other: &Tag) -> (r: Option<Ordering>) {
        let name_ord = lex_cmp_str(self.name.as_str(), other.name.as_str());
        match name_ord {
            Ordering::Less => Some(Ordering::Less),
            Ordering::Greater => Some(Ordering::Greater),
            Ordering::Equal => match (&self.version, &other.version) {
                (Some(a), Some(b)) => Some(lex_cmp_str(a.as_str(), b.as_str())),
                (Some(a), None) => Some(Ordering::Greater),
                (None, Some(b)) => Some(Ordering::Less),
                (None, None) => None,
            },
        }
    }
}

impl vstd::std_specs::cmp::PartialOrdSpecImpl for Tag {
    open spec fn obeys_partial_cmp_spec() -> bool {
        true
    }

    open spec fn partial_cmp_spec(&self, other: &Tag) -> Option<Ordering> {
        tag_cmp(self@, other@)
    }
}

/// Comparison agrees with equality where it answers `Equal` at all: that
/// happens exactly for two equal tags that both carry a version. Two equal
/// unversioned tags are incomparable instead.
pub proof fn law_tag_cmp_consistent_with_eq(a: TagView, b: TagView)
    ensures
        tag_cmp(a, b) == Some(Ordering::Equal) <==> (a == b && a.version is Some),
        a == b && a.version is None ==> tag_cmp(a, b) is None,
{
    lemma_lex_cmp_eq(a.name, b.name);
    if a.name == b.name {
        match (a.version, b.version) {
            (Some(x), Some(y)) => {
                lemma_lex_cmp_eq(x, y);
                if lex_cmp_seq(x, y) == Ordering::Equal {
                    assert(a =~= b);
                }
            },
            _ => {},
        }
    }
    if a == b {
        lemma_lex_cmp_eq(a.name, a.name);
    }
}

/// The order is antisymmetric: `a` below `b` exactly when `b` above `a`.
pub proof fn law_tag_cmp_antisym(a: TagView, b: TagView)
    ensures
        tag_cmp(a, b) == Some(Ordering::Less) <==> tag_cmp(b, a) == Some(Ordering::Greater),
{
    lemma_lex_cmp_antisym(a.name, b.name);
    lemma_lex_cmp_antisym(b.name, a.name);
    lemma_lex_cmp_eq(a.name, b.name);
    lemma_lex_cmp_eq(b.name, a.name);
    match (a.version, b.version) {
        (Some(x), Some(y)) => {
            lemma_lex_cmp_antisym(x, y);
            lemma_lex_cmp_antisym(y, x);
        },
        _ => {},
    }
}

/// The order is irreflexive: no tag ranks strictly below itself.
pub proof fn law_tag_cmp_irreflexive(a: TagView)
    ensures
        tag_cmp(a, a) != Some(Ordering::Less),
        tag_cmp(a, a) != Some(Ordering::Greater),
{
    law_tag_cmp_antisym(a, a);
}

/// The order is transitive in its strict part.
pub proof fn law_tag_cmp_trans(a: TagView, b: TagView, c: TagView)
    requires
        tag_cmp(a, b) == Some(Ordering::Less),
        tag_cmp(b, c) == Some(Ordering::Less),
    ensures
        tag_cmp(a, c) == Some(Ordering::Less),
{
    lemma_lex_cmp_eq(a.name, b.name);
    lemma_lex_cmp_eq(b.name, c.name);
    lemma_lex_cmp_eq(a.name, c.name);
    if lex_cmp_seq(a.name, b.name) == Ordering::Less && lex_cmp_seq(b.name, c.name)
        == Ordering::Less {
        lemma_lex_cmp_trans(a.name, b.name, c.name);
    } else if a.name == b.name && b.name == c.name {
        match (a.version, b.version, c.version) {
            (Some(x), Some(y), Some(z)) => {
                lemma_lex_cmp_eq(x, y);
                lemma_lex_cmp_trans(x, y, z);
            },
            _ => {},
        }
    }
}

/// For every name that construction accepts, constructing with no version
/// and rendering yields the lowercased name; a name that is already valid
/// (hence already lowercase) comes back unchanged.
pub proof fn law_construct_render_name(name: Seq<char>)
    requires
        fragment_ok(lower_seq(name)),
    ensures
        construct_spec(name, None) == Ok::<TagView, TagError>(
            TagView { name: lower_seq(name), version: None },
        ),
        to_string_spec(TagView { name: lower_seq(name), version: None }) == lower_seq(name),
        valid_tag_seq(name) ==> to_string_spec(TagView { name: lower_seq(name), version: None })
            == name,
{
    if valid_tag_seq(name) {
        lemma_valid_lower_identity(name);
    }
}

/// Parsing the rendered form of any well-formed tag gives the tag back.
pub proof fn law_to_string_parse_round_trip(v: TagView)
    requires
        v.wf(),
    ensures
        parse_spec(to_string_spec(v)) == Ok::<TagView, TagError>(v),
{
    let s = to_string_spec(v);
    match v.version {
        None => {
            assert(s == v.name);
            assert forall|j: int| 0 <= j < s.len() implies s[j] != ':' by {
                assert(is_tag_char(s[j]));
            }
            lemma_first_colon_unique(s, s.len() as int);
            lemma_valid_lower_identity(v.name);
            assert(construct_spec(s, None) == Ok::<TagView, TagError>(
                TagView { name: v.name, version: None },
            ));
            assert(TagView { name: v.name, version: None } =~= v);
        },
        Some(ver) => {
            let n = v.name.len() as int;
            assert(s.len() == n + 1 + ver.len());
            assert forall|j: int| 0 <= j < n implies s[j] != ':' by {
                assert(s[j] == v.name[j]);
                assert(is_tag_char(v.name[j]));
            }
            assert(s[n] == ':');
            lemma_first_colon_unique(s, n);
            let rest = s.subrange(n + 1, s.len() as int);
            assert(rest =~= ver);
            assert forall|j: int| 0 <= j < rest.len() implies rest[j] != ':' by {
                assert(is_tag_char(ver[j]));
            }
            lemma_first_colon_unique(rest, rest.len() as int);
            assert(s.subrange(0, n) =~= v.name);
            lemma_valid_lower_identity(v.name);
            lemma_valid_lower_identity(ver);
            assert(construct_spec(v.name, Some(ver)) == Ok::<TagView, TagError>(
                TagView { name: v.name, version: Some(ver) },
            ));
            assert(TagView { name: v.name, version: Some(ver) } =~= v);
        },
    }
}

} // verus!
