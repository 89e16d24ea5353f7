//! Bearer-token authentication and role-based authorization.
//!
//! Tokens map to a [`Principal`] — an id plus the [`Role`]s it holds. Tokens are stored
//! hashed: the table holds `SHA-256(token) -> Principal`, so no plaintext token sits in
//! memory, and a lookup compares digests.

use vstd::prelude::*;

use crate::api_error::ApiError;
use crate::digest::{sha256, sha256_of};
use crate::text::{same_text, substring, trim, trimmed};

verus! {

/// A capability a principal may hold.
#[derive(Debug, Clone, Copy, PartialEq, Eq, Structural, PartialOrd, Ord)]
pub enum Role {
    /// May publish Facets.
    Author,
    /// May moderate (publish/reject) submitted Facets.
    Moderator,
}

/// The stable slug of a role, used in config and API output.
pub open spec fn role_slug(r: Role) -> Seq<char> {
    match r {
        Role::Author => "author"@,
        Role::Moderator => "moderator"@,
    }
}

/// The role a slug names, if any.
pub open spec fn role_of_slug(s: Seq<char>) -> Option<Role> {
    if s == "author"@ {
        Some(Role::Author)
    } else if s == "moderator"@ {
        Some(Role::Moderator)
    } else {
        None
    }
}

/// The position of a role in the roles' order (authors before moderators).
pub open spec fn role_rank(r: Role) -> int {
    match r {
        Role::Author => 0,
        Role::Moderator => 1,
    }
}

/// `c` with an ASCII capital letter lowered.
pub open spec fn ascii_lower(c: char) -> char {
    if 'A' <= c <= 'Z' {
        ((c as u32) + 32) as char
    } else {
        c
    }
}

/// `s` is the scheme word `bearer`, in any mix of ASCII case.
pub open spec fn is_bearer_scheme(s: Seq<char>) -> bool {
    s.len() == 6 && forall|i: int| 0 <= i < 6 ==> ascii_lower(#[trigger] s[i]) == "bearer"@[i]
}

/// The position of the first space in `s`, if there is one.
pub open spec fn first_space(s: Seq<char>) -> Option<int> {
    if exists|i: int| 0 <= i < s.len() && s[i] == ' ' {
        Some(choose|i: int| 0 <= i < s.len() && s[i] == ' ' && forall|k: int| 0 <= k < i ==> s[k] != ' ')
    } else {
        None
    }
}

/// The token an `Authorization` header value carries: the value is a scheme, a space and
/// the token; the scheme must be `bearer` in any ASCII case, and the token is what follows
/// the first space, without leading and trailing white space.
pub open spec fn bearer_of(h: Seq<char>) -> Option<Seq<char>> {
    match first_space(h) {
        Some(i) => if is_bearer_scheme(h.subrange(0, i)) {
            Some(trimmed(h.subrange(i + 1, h.len() as int)))
        } else {
            None
        },
        None => None,
    }
}

fn lower_char(c: char) -> (r: char)
    ensures
        r == ascii_lower(c),
{
    if 'A' <= c && c <= 'Z' {
        let u = (c as u32) + 32;
        proof {
            assert(u < 0xD800);
        }
        char_of_ascii(u)
    } else {
        c
    }
}

fn char_of_ascii(u: u32) -> (c: char)
    requires
        0x41 + 32 <= u <= 0x5A + 32,
    ensures
        c == u as char,
{
    let b = u as u8;
    b as char
}

/// The token of an `Authorization` header value of the form `Bearer <token>`, or `None`
/// where the value has another form.
pub fn bearer_token(header: &str) -> (r: Option<String>)
    ensures
        match bearer_of(header@) {
            Some(t) => r matches Some(s) && s@ == t,
            None => r is None,
        },
{
    let n = header.unicode_len();
    let mut i: usize = 0;
    while i < n && header.get_char(i) != ' '
        invariant
            n == header@.len(),
            i <= n,
            forall|k: int| 0 <= k < i ==> header@[k] != ' ',
        decreases n - i,
    {
        i += 1;
    }
    let ghost h = header@;
    if i == n {
        proof {
            assert(!exists|k: int| 0 <= k < h.len() && h[k] == ' ');
        }
        return None;
    }
    proof {
        assert(h[i as int] == ' ');
        let c = choose|k: int| 0 <= k < h.len() && h[k] == ' ' && forall|j: int| 0 <= j < k ==> h[j] != ' ';
        assert(c == i as int) by {
            if c < i {
                assert(h[c] != ' ');
            } else if c > i {
                assert(h[i as int] != ' ');
            }
        }
    }
    proof {
        reveal_strlit("bearer");
    }
    let word = "bearer";
    if i != 6 {
        proof {
            assert(h.subrange(0, i as int).len() != 6);
            assert(first_space(h) == Some(i as int));
        }
        return None;
    }
    let mut k: usize = 0;
    while k < 6
        invariant
            k <= 6,
            i == 6,
            n == header@.len(),
            i < n,
            first_space(header@) == Some(i as int),
            word@ == "bearer"@,
            word@.len() == 6,
            forall|j: int| 0 <= j < k ==> ascii_lower(#[trigger] header@.subrange(0, i as int)[j]) == "bearer"@[j],
        decreases 6 - k,
    {
        if lower_char(header.get_char(k)) != word.get_char(k) {
            proof {
                assert(!is_bearer_scheme(header@.subrange(0, i as int))) by {
                    assert(header@.subrange(0, i as int)[k as int] == header@[k as int]);
                }
            }
            return None;
        }
        k += 1;
    }
    let rest = substring(header, i + 1, n);
    Some(trim(rest.as_str()))
}

impl Role {
    /// The stable slug used in config and API output.
    pub fn as_str(self) -> (s: &'static str)
        ensures
            s@ == role_slug(self),
    {
        match self {
            Role::Author => "author",
            Role::Moderator => "moderator",
        }
    }

    /// The role a slug names, or `None` for an unknown slug.
    pub fn parse(s: &str) -> (r: Option<Role>)
        ensures
            r == role_of_slug(s@),
    {
        if same_text(s, "author") {
            Some(Role::Author)
        } else if same_text(s, "moderator") {
            Some(Role::Moderator)
        } else {
            None
        }
    }
}

/// Reading a role's slug back gives the role.
pub proof fn lemma_role_slug_roundtrip(r: Role)
    ensures
        role_of_slug(role_slug(r)) == Some(r),
{
    reveal_strlit("author");
    reveal_strlit("moderator");
    assert("author"@ != "moderator"@) by {
        assert("author"@.len() != "moderator"@.len());
    }
}

/// Distinct roles have distinct slugs.
pub proof fn lemma_role_slugs_distinct()
    ensures
        forall|a: Role, b: Role| a != b ==> role_slug(a) != role_slug(b),
{
    reveal_strlit("author");
    reveal_strlit("moderator");
    assert("author"@ != "moderator"@) by {
        assert("author"@.len() != "moderator"@.len());
    }
}

/// An authenticated caller: an id and the roles it holds, in order, each once.
#[derive(Debug)]
pub struct Principal {
    /// Opaque principal id (also recorded as a Facet's author).
    id: String,
    /// The roles this principal holds, in ascending order without repeats.
    roles: Vec<Role>,
}

/// Roles in strictly ascending order: each at most once.
pub open spec fn roles_ordered(roles: Seq<Role>) -> bool {
    forall|i: int, j: int| 0 <= i < j < roles.len() ==> role_rank(roles[i]) < role_rank(roles[j])
}

impl Principal {
    /// Every principal holds its roles in ascending order, each once.
    #[verifier::type_invariant]
    closed spec fn roles_in_order(self) -> bool {
        roles_ordered(self.roles@)
    }

    /// The principal's id.
    pub closed spec fn id_text(&self) -> Seq<char> {
        self.id@
    }

    /// The roles the principal holds, in the order held.
    pub closed spec fn held(&self) -> Seq<Role> {
        self.roles@
    }

    /// The principal's id.
    pub fn id(&self) -> (r: &String)
        ensures
            r@ == self.id_text(),
    {
        &self.id
    }

    /// Whether this principal holds `role`.
    pub fn has_role(&self, role: Role) -> (b: bool)
        ensures
            b == self.held().contains(role),
    {
        let mut i: usize = 0;
        while i < self.roles.len()
            invariant
                i <= self.roles@.len(),
                forall|k: int| 0 <= k < i ==> self.roles@[k] != role,
            decreases self.roles@.len() - i,
        {
            if self.roles[i] == role {
                return true;
            }
            i += 1;
        }
        false
    }

    /// Require `role`, else a 403 naming it.
    pub fn require(&self, role: Role) -> (r: Result<(), ApiError>)
        ensures
            self.held().contains(role) ==> r is Ok,
            !self.held().contains(role) ==> (r matches Err(ApiError::Forbidden(m)) && m@
                == "this action requires the '"@ + role_slug(role) + "' role"@),
    {
        if self.has_role(role) {
            Ok(())
        } else {
            let mut m = String::new();
            m.append("this action requires the '");
            m.append(role.as_str());
            m.append("' role");
            Err(ApiError::forbidden(m))
        }
    }

    /// The principal's roles as slugs, in ascending role order, each once.
    pub fn role_slugs(&self) -> (v: Vec<&'static str>)
        ensures
            v@.len() == self.held().len(),
            roles_ordered(self.held()),
            forall|i: int| 0 <= i < v@.len() ==> #[trigger] v@[i]@ == role_slug(self.held()[i]),
            forall|i: int, j: int| 0 <= i < j < v@.len() ==> v@[i]@ != v@[j]@,
    {
        proof {
            use_type_invariant(self);
            lemma_role_slugs_distinct();
        }
        let mut v: Vec<&'static str> = Vec::new();
        let mut i: usize = 0;
        while i < self.roles.len()
            invariant
                i <= self.roles@.len(),
                v@.len() == i,
                forall|k: int| 0 <= k < i ==> #[trigger] v@[k]@ == role_slug(self.roles@[k]),
            decreases self.roles@.len() - i,
        {
            v.push(self.roles[i].as_str());
            i += 1;
        }
        v
    }
}

impl Clone for Principal {
    /// The same id and roles.
    fn clone(&self) -> (r: Principal)
        ensures
            r.id_text() == self.id_text(),
            r.held() == self.held(),
    {
        proof {
            use_type_invariant(self);
        }
        let mut roles: Vec<Role> = Vec::new();
        let mut i: usize = 0;
        while i < self.roles.len()
            invariant
                i <= self.roles@.len(),
                roles@ == self.roles@.take(i as int),
            decreases self.roles@.len() - i,
        {
            roles.push(self.roles[i]);
            i += 1;
            assert(roles@ =~= self.roles@.take(i as int));
        }
        assert(self.roles@.take(i as int) =~= self.roles@);
        let id = self.id.clone();
        Principal { id, roles }
    }
}

/// One entry of the token config: a secret token, the principal id it authenticates, and
/// the role slugs it grants.
#[derive(Debug, Clone)]
pub struct TokenEntry {
    pub token: String,
    pub id: String,
    pub roles: Vec<String>,
}

/// Why a token config was refused.
#[derive(Debug, Clone, PartialEq, Eq)]
pub enum AuthConfigError {
    /// An entry grants a role slug that names no role.
    UnknownRole { role: String, principal: String },
    /// Two entries carry the same token.
    DuplicateToken,
}

/// The bytes a token is hashed from: its UTF-8 encoding.
pub open spec fn token_bytes(token: Seq<char>) -> Seq<u8> {
    vstd::utf8::encode_utf8(token)
}

/// The digest a token is stored under.
pub open spec fn token_digest(token: Seq<char>) -> Seq<u8> {
    sha256_of(token_bytes(token))
}

/// The index of the first role slug of `slugs[i..]` that names no role, if any.
pub open spec fn first_unknown_role(slugs: Seq<String>, i: int) -> Option<int>
    decreases slugs.len() - i,
{
    if i >= slugs.len() || i < 0 {
        None
    } else if role_of_slug(slugs[i]@) is None {
        Some(i)
    } else {
        first_unknown_role(slugs, i + 1)
    }
}

/// Whether a token entry grants `r`.
pub open spec fn grants(e: TokenEntry, r: Role) -> bool {
    exists|i: int| 0 <= i < e.roles@.len() && role_of_slug(#[trigger] e.roles@[i]@) == Some(r)
}

/// The principal an entry describes: its id, and exactly the roles its slugs name, in
/// ascending order.
pub open spec fn describes(p: Principal, e: TokenEntry) -> bool {
    &&& p.id_text() == e.id@
    &&& roles_ordered(p.held())
    &&& forall|r: Role| p.held().contains(r) <==> grants(e, r)
}

/// No two pairs of the table share a digest.
pub open spec fn digests_distinct(t: Seq<([u8; 32], Principal)>) -> bool {
    forall|i: int, j: int| 0 <= i < j < t.len() ==> t[i].0@ != t[j].0@
}

/// Pair `k` of the table holds entry `k`'s token digest and the principal it describes.
pub open spec fn table_built_from(t: Seq<([u8; 32], Principal)>, entries: Seq<TokenEntry>) -> bool {
    &&& t.len() == entries.len()
    &&& forall|k: int|
        0 <= k < entries.len() ==> (#[trigger] t[k]).0@ == token_digest(entries[k].token@)
            && describes(t[k].1, entries[k])
}

/// The server's token table: `(SHA-256(token), Principal)` pairs, no digest twice.
pub struct AuthConfig {
    by_token_hash: Vec<([u8; 32], Principal)>,
}

/// Whether entry `e` may join a table already built from `prev`: refused if it grants an
/// unknown role, or repeats the token digest of an earlier entry.
pub open spec fn entry_step(prev: Seq<TokenEntry>, e: TokenEntry) -> Result<(), AuthConfigError> {
    match first_unknown_role(e.roles@, 0) {
        Some(k) => Err(AuthConfigError::UnknownRole { role: e.roles@[k], principal: e.id }),
        None => if exists|j: int|
            0 <= j < prev.len() && token_digest(#[trigger] prev[j].token@) == token_digest(
                e.token@,
            ) {
            Err(AuthConfigError::DuplicateToken)
        } else {
            Ok(())
        },
    }
}

/// Whether a table can be built from `entries`, or why it is refused: the entries are
/// taken in order, and the first one refused refuses the whole table.
pub open spec fn config_outcome(entries: Seq<TokenEntry>) -> Result<(), AuthConfigError>
    decreases entries.len(),
{
    if entries.len() == 0 {
        Ok(())
    } else {
        match config_outcome(entries.drop_last()) {
            Err(e) => Err(e),
            Ok(()) => entry_step(entries.drop_last(), entries.last()),
        }
    }
}

impl AuthConfig {
    /// The stored digests and principals.
    pub closed spec fn entries(&self) -> Seq<(Seq<u8>, Principal)> {
        self.by_token_hash@.map_values(|p: ([u8; 32], Principal)| (p.0@, p.1))
    }

    /// No digest is stored twice.
    pub closed spec fn wf(&self) -> bool {
        digests_distinct(self.by_token_hash@)
    }

    /// The principal stored under `digest`, if any.
    pub open spec fn principal_for(&self, digest: Seq<u8>) -> Option<Principal> {
        if exists|i: int| 0 <= i < self.entries().len() && (#[trigger] self.entries()[i]).0 == digest {
            Some(
                self.entries()[choose|i: int|
                    0 <= i < self.entries().len() && (#[trigger] self.entries()[i]).0
                        == digest].1,
            )
        } else {
            None
        }
    }

    /// A table built from `entries`: entry `k`'s token digest, stored with the principal it
    /// describes, in order.
    pub open spec fn built_from(&self, entries: Seq<TokenEntry>) -> bool {
        &&& self.entries().len() == entries.len()
        &&& forall|k: int|
            0 <= k < entries.len() ==> (#[trigger] self.entries()[k]).0 == token_digest(
                entries[k].token@,
            ) && describes(self.entries()[k].1, entries[k])
    }

    proof fn lemma_table_view(&self)
        ensures
            self.wf() == digests_distinct(self.by_token_hash@),
            self.entries().len() == self.by_token_hash@.len(),
            forall|k: int| 0 <= k < self.entries().len() ==> #[trigger] self.entries()[k] == (self.by_token_hash@[k].0@, self.by_token_hash@[k].1),
    {
    }

    /// An empty table: every token is unknown.
    pub fn empty() -> (c: AuthConfig)
        ensures
            c.wf(),
            c.entries().len() == 0,
    {
        AuthConfig { by_token_hash: Vec::new() }
    }

    /// Build a table from config entries, refusing an unknown role or a repeated token.
    pub fn from_entries(entries: Vec<TokenEntry>) -> (r: Result<AuthConfig, AuthConfigError>)
        ensures
            match config_outcome(entries@) {
                Ok(()) => r matches Ok(c) && c.wf() && c.built_from(entries@),
                Err(e) => r == Err::<AuthConfig, AuthConfigError>(e),
            },
            r matches Ok(c) ==> forall|k: int|
                0 <= k < entries@.len() ==> ((#[trigger] c.principal_for(token_digest(entries@[k].token@)))
                    matches Some(p) && describes(p, entries@[k])),
            r is Ok ==> forall|a: int, b: int|
                0 <= a < b < entries@.len() ==> (#[trigger] entries@[a].token)@ != (#[trigger] entries@[b].token)@,
            r is Ok ==> forall|k: int, i: int|
                0 <= k < entries@.len() && 0 <= i < entries@[k].roles@.len() ==> role_of_slug(
                    (#[trigger] entries@[k].roles@[i])@,
                ) is Some,
    {
        let mut table: Vec<([u8; 32], Principal)> = Vec::new();
        let mut idx: usize = 0;
        while idx < entries.len()
            invariant
                idx <= entries@.len(),
                config_outcome(entries@.take(idx as int)) == Ok::<(), AuthConfigError>(()),
                digests_distinct(table@),
                table_built_from(table@, entries@.take(idx as int)),
            decreases entries@.len() - idx,
        {
            proof {
                assert(entries@.take(idx + 1).drop_last() =~= entries@.take(idx as int));
                assert(entries@.take(idx + 1).last() == entries@[idx as int]);
            }
            match admit_entry(&mut table, Ghost(entries@.take(idx as int)), &entries[idx]) {
                Ok(()) => {},
                Err(e) => {
                    proof {
                        lemma_outcome_prefix(entries@, idx + 1);
                    }
                    return Err(e);
                },
            }
            proof {
                assert(entries@.take(idx as int).push(entries@[idx as int]) =~= entries@.take(idx + 1));
            }
            idx += 1;
        }
        assert(entries@.take(idx as int) =~= entries@);
        let c = AuthConfig { by_token_hash: table };
        proof {
            c.lemma_table_view();
            assert forall|k: int| 0 <= k < entries@.len() implies ((#[trigger] c.principal_for(
                token_digest(entries@[k].token@),
            )) matches Some(p) && describes(p, entries@[k])) by {
                lemma_lookup_configured(c, entries@, k);
            }
            assert forall|a: int, b: int| 0 <= a < b < entries@.len() implies (#[trigger] entries@[a].token)@
                != (#[trigger] entries@[b].token)@ by {
                lemma_digests_distinct(entries@, a, b);
            }
            assert forall|k: int, i: int|
                0 <= k < entries@.len() && 0 <= i < entries@[k].roles@.len() implies role_of_slug(
                (#[trigger] entries@[k].roles@[i])@,
            ) is Some by {
                lemma_roles_known(entries@, k);
            }
        }
        Ok(c)
    }

    /// Resolve a bearer token to its principal: the one stored under the token's digest, or
    /// `None` if none is.
    pub fn lookup(&self, token: &str) -> (r: Option<&Principal>)
        requires
            self.wf(),
        ensures
            match self.principal_for(token_digest(token@)) {
                Some(p) => r matches Some(q) && *q == p,
                None => r is None,
            },
    {
        let d = sha256(token.as_bytes());
        proof {
            self.lemma_table_view();
        }
        let mut i: usize = 0;
        while i < self.by_token_hash.len()
            invariant
                i <= self.by_token_hash@.len(),
                self.wf(),
                d@ == token_digest(token@),
                forall|k: int| 0 <= k < i ==> self.by_token_hash@[k].0@ != d@,
            decreases self.by_token_hash@.len() - i,
        {
            if digest_eq(&self.by_token_hash[i].0, &d) {
                proof {
                    self.lemma_table_view();
                    assert(self.entries()[i as int].0 == d@);
                    let j = choose|j: int|
                        0 <= j < self.entries().len() && (#[trigger] self.entries()[j]).0 == d@;
                    assert(j == i) by {
                        if j != i {
                            assert(self.by_token_hash@[j].0@ == self.by_token_hash@[i as int].0@);
                        }
                    }
                }
                return Some(&self.by_token_hash[i].1);
            }
            i += 1;
        }
        proof {
            assert forall|k: int| 0 <= k < self.entries().len() implies (#[trigger] self.entries()[k]).0 != d@ by {
                assert(self.entries()[k].0 == self.by_token_hash@[k].0@);
            }
        }
        None
    }

    /// Number of configured principals.
    pub fn len(&self) -> (n: usize)
        ensures
            n == self.entries().len(),
    {
        self.by_token_hash.len()
    }

    /// Whether no tokens are configured.
    pub fn is_empty(&self) -> (b: bool)
        ensures
            b == (self.entries().len() == 0),
    {
        self.by_token_hash.len() == 0
    }
}

fn digest_eq(a: &[u8; 32], b: &[u8; 32]) -> (r: bool)
    ensures
        r == (a@ == b@),
{
    let mut i: usize = 0;
    while i < 32
        invariant
            i <= 32,
            a@.len() == 32,
            b@.len() == 32,
            forall|k: int| 0 <= k < i ==> a@[k] == b@[k],
        decreases 32 - i,
    {
        if a[i] != b[i] {
            return false;
        }
        i += 1;
    }
    assert(a@ =~= b@);
    true
}

/// Add entry `e` to a table built from `prev`, or say why it is refused.
fn admit_entry(
    table: &mut Vec<([u8; 32], Principal)>,
    Ghost(prev): Ghost<Seq<TokenEntry>>,
    e: &TokenEntry,
) -> (r: Result<(), AuthConfigError>)
    requires
        digests_distinct(old(table)@),
        table_built_from(old(table)@, prev),
    ensures
        r == entry_step(prev, *e),
        r is Ok ==> digests_distinct(final(table)@) && table_built_from(final(table)@, prev.push(*e)),
{
    let roles = match parse_roles(&e.roles) {
        Ok(v) => v,
        Err(j) => {
            let role = e.roles[j].clone();
            let principal = e.id.clone();
            return Err(AuthConfigError::UnknownRole { role, principal });
        },
    };
    let d = sha256(e.token.as_str().as_bytes());
    let mut t: usize = 0;
    while t < table.len()
        invariant
            t <= table@.len(),
            table@ == old(table)@,
            table_built_from(table@, prev),
            first_unknown_role(e.roles@, 0) is None,
            d@ == token_digest(e.token@),
            forall|k: int| 0 <= k < t ==> table@[k].0@ != d@,
        decreases table@.len() - t,
    {
        if digest_eq(&table[t].0, &d) {
            proof {
                assert(table@[t as int].0@ == token_digest(prev[t as int].token@));
            }
            return Err(AuthConfigError::DuplicateToken);
        }
        t += 1;
    }
    let ghost old_table = table@;
    proof {
        assert forall|j: int| 0 <= j < prev.len() implies token_digest(#[trigger] prev[j].token@)
            != token_digest(e.token@) by {
            assert(old_table[j].0@ == token_digest(prev[j].token@));
        }
    }
    table.push((d, Principal { id: e.id.clone(), roles }));
    proof {
        assert forall|k: int| 0 <= k < prev.len() + 1 implies (#[trigger] table@[k]).0@ == token_digest(
            prev.push(*e)[k].token@,
        ) && describes(table@[k].1, prev.push(*e)[k]) by {
            if k < prev.len() {
                assert(table@[k] == old_table[k]);
            }
        }
    }
    Ok(())
}

/// Parse role slugs into the ascending, repeat-free roles they grant, or the index of the
/// first slug that names no role.
fn parse_roles(slugs: &Vec<String>) -> (r: Result<Vec<Role>, usize>)
    ensures
        match first_unknown_role(slugs@, 0) {
            Some(k) => r matches Err(j) && j as int == k && k < slugs@.len(),
            None => r matches Ok(v) && roles_ordered(v@) && forall|x: Role|
                v@.contains(x) <==> exists|i: int|
                    0 <= i < slugs@.len() && role_of_slug(#[trigger] slugs@[i]@) == Some(x),
        },
{
    let mut author = false;
    let mut moderator = false;
    let mut j: usize = 0;
    while j < slugs.len()
        invariant
            j <= slugs@.len(),
            first_unknown_role(slugs@, 0) == first_unknown_role(slugs@, j as int),
            forall|k: int| 0 <= k < j ==> (#[trigger] role_of_slug(slugs@[k]@)) is Some,
            author <==> exists|i: int| 0 <= i < j && role_of_slug(#[trigger] slugs@[i]@) == Some(Role::Author),
            moderator <==> exists|i: int|
                0 <= i < j && role_of_slug(#[trigger] slugs@[i]@) == Some(Role::Moderator),
        decreases slugs@.len() - j,
    {
        match Role::parse(slugs[j].as_str()) {
            None => {
                return Err(j);
            },
            Some(Role::Author) => {
                author = true;
            },
            Some(Role::Moderator) => {
                moderator = true;
            },
        }
        j += 1;
    }
    let mut v: Vec<Role> = Vec::new();
    if author {
        v.push(Role::Author);
    }
    if moderator {
        v.push(Role::Moderator);
    }
    proof {
        assert forall|x: Role| v@.contains(x) <==> exists|i: int|
            0 <= i < slugs@.len() && role_of_slug(#[trigger] slugs@[i]@) == Some(x) by {
            if author && x == Role::Author {
                assert(v@[0] == x);
            }
            if moderator && x == Role::Moderator {
                assert(v@[v@.len() - 1] == x);
            }
        }
    }
    Ok(v)
}

/// The outcome of a table built from a prefix that already failed is that failure.
proof fn lemma_outcome_prefix(entries: Seq<TokenEntry>, n: int)
    requires
        0 <= n <= entries.len(),
        config_outcome(entries.take(n)) is Err,
    ensures
        config_outcome(entries) == config_outcome(entries.take(n)),
    decreases entries.len() - n,
{
    if n < entries.len() {
        assert(entries.take(n + 1).drop_last() =~= entries.take(n));
        lemma_outcome_prefix(entries, n + 1);
    } else {
        assert(entries.take(n) =~= entries);
    }
}

/// Looking up a configured token finds the principal its entry describes.
pub proof fn lemma_lookup_configured(c: AuthConfig, entries: Seq<TokenEntry>, k: int)
    requires
        config_outcome(entries) is Ok,
        c.wf(),
        c.built_from(entries),
        0 <= k < entries.len(),
    ensures
        c.principal_for(token_digest(entries[k].token@)) matches Some(p) && describes(p, entries[k]),
{
    let d = token_digest(entries[k].token@);
    assert(c.entries()[k].0 == d);
    let j = choose|j: int| 0 <= j < c.entries().len() && (#[trigger] c.entries()[j]).0 == d;
    assert(j == k) by {
        if j != k {
            lemma_digests_distinct(entries, j, k);
        }
    }
}

proof fn lemma_no_unknown_role_from(slugs: Seq<String>, i: int)
    requires
        0 <= i,
        first_unknown_role(slugs, i) is None,
    ensures
        forall|k: int| i <= k < slugs.len() ==> role_of_slug((#[trigger] slugs[k])@) is Some,
    decreases slugs.len() - i,
{
    if i < slugs.len() {
        lemma_no_unknown_role_from(slugs, i + 1);
    }
}

/// In a table the config accepts, every role slug of every entry names a role.
proof fn lemma_roles_known(entries: Seq<TokenEntry>, k: int)
    requires
        config_outcome(entries) is Ok,
        0 <= k < entries.len(),
    ensures
        forall|i: int| 0 <= i < entries[k].roles@.len() ==> role_of_slug((#[trigger] entries[k].roles@[i])@) is Some,
    decreases entries.len(),
{
    if k == entries.len() - 1 {
        lemma_no_unknown_role_from(entries[k].roles@, 0);
    } else {
        assert(entries.drop_last()[k] == entries[k]);
        lemma_roles_known(entries.drop_last(), k);
    }
}

/// In a table the config accepts, no two entries share a token digest.
proof fn lemma_digests_distinct(entries: Seq<TokenEntry>, a: int, b: int)
    requires
        config_outcome(entries) is Ok,
        0 <= a < entries.len(),
        0 <= b < entries.len(),
        a != b,
    ensures
        token_digest(entries[a].token@) != token_digest(entries[b].token@),
    decreases entries.len(),
{
    let hi = if a < b { b } else { a };
    let lo = if a < b { a } else { b };
    if hi == entries.len() - 1 {
        assert(entries.drop_last()[lo] == entries[lo]);
    } else {
        assert(entries.drop_last()[a] == entries[a]);
        assert(entries.drop_last()[b] == entries[b]);
        lemma_digests_distinct(entries.drop_last(), a, b);
    }
}

} // verus!
