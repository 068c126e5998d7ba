use vstd::prelude::*;
use crate::auth::{has_two_dots, AuthError, Verifier};
use crate::store::{apply_writes, hash_of, pairs_view, Cells, Fields, MemoryStore};

verus! {

/// A request to create (or overwrite) the account stored under `id`.
pub struct AccountCreateReq {
    pub id: String,
    pub username: String,
    pub created: String,
    pub points: String,
}

/// The empty reply to a successful create.
#[derive(PartialEq, Eq, Structural)]
pub struct AccountCreateResp {}

/// A request for the account stored under `id`.
pub struct AccountGetReq {
    pub id: String,
}

/// The account as returned by a get.
pub struct AccountGetResp {
    pub email: String,
    pub name: String,
    pub created: String,
    pub pic: String,
    pub points: String,
}

/// The fields that a get must find in the account's hash, in the order they are checked.
#[derive(PartialEq, Eq, Structural, Clone, Copy, Debug)]
pub enum RecordField {
    Email,
    Name,
    Created,
    Pic,
    Points,
}

/// A failure of the store's client, whatever its cause.
#[derive(PartialEq, Eq, Structural, Clone, Copy, Debug)]
pub struct StoreFailure {}

/// Status codes of the RPC protocol that this service uses.
#[derive(PartialEq, Eq, Structural, Clone, Copy, Debug)]
pub enum RpcCode {
    Unauthenticated,
    Internal,
    NotFound,
    Unavailable,
    DataLoss,
}

/// Every way a call can fail.
#[derive(PartialEq, Eq, Structural, Clone, Copy, Debug)]
pub enum RpcError {
    /// The bearer token was refused.
    Unauthenticated(AuthError),
    /// The store refused a write.
    Internal,
    /// No hash exists under the requested key.
    NotFound,
    /// The store could not be read.
    Unavailable,
    /// The hash exists but lacks a field that a get needs.
    IncompleteRecord(RecordField),
}

impl RpcError {
    /// The protocol status code of this error.
    pub fn code(&self) -> (r: RpcCode)
        ensures
            r == match *self {
                RpcError::Unauthenticated(_) => RpcCode::Unauthenticated,
                RpcError::Internal => RpcCode::Internal,
                RpcError::NotFound => RpcCode::NotFound,
                RpcError::Unavailable => RpcCode::Unavailable,
                RpcError::IncompleteRecord(_) => RpcCode::DataLoss,
            },
    {
        match *self {
            RpcError::Unauthenticated(_) => RpcCode::Unauthenticated,
            RpcError::Internal => RpcCode::Internal,
            RpcError::NotFound => RpcCode::NotFound,
            RpcError::Unavailable => RpcCode::Unavailable,
            RpcError::IncompleteRecord(_) => RpcCode::DataLoss,
        }
    }

    /// The human-readable message sent with this error.
    pub fn message(&self) -> (r: &'static str)
        ensures
            r@ == match *self {
                RpcError::Unauthenticated(e) => e.message_spec(),
                RpcError::Internal => "Serious error"@,
                RpcError::NotFound => "Resource not found"@,
                RpcError::Unavailable => "Store unavailable"@,
                RpcError::IncompleteRecord(_) => "Record is incomplete"@,
            },
    {
        match *self {
            RpcError::Unauthenticated(e) => e.message(),
            RpcError::Internal => "Serious error",
            RpcError::NotFound => "Resource not found",
            RpcError::Unavailable => "Store unavailable",
            RpcError::IncompleteRecord(_) => "Record is incomplete",
        }
    }
}

/// The name of a record field in the store.
pub open spec fn field_name(f: RecordField) -> Seq<char> {
    match f {
        RecordField::Email => "email"@,
        RecordField::Name => "name"@,
        RecordField::Created => "created"@,
        RecordField::Pic => "pic"@,
        RecordField::Points => "points"@,
    }
}

/// The value of the first pair named `name`, if any.
#[verifier::opaque]
pub open spec fn field_in(fs: Seq<(Seq<char>, Seq<char>)>, name: Seq<char>) -> Option<Seq<char>> {
    if exists|j: int| 0 <= j < fs.len() && fs[j].0 == name {
        let j = choose|j: int|
            0 <= j < fs.len() && fs[j].0 == name && forall|k: int| 0 <= k < j ==> fs[k].0 != name;
        Some(fs[j].1)
    } else {
        None
    }
}

/// The value of field `f` in hash `h`, if present.
pub open spec fn field_of(h: Fields, f: RecordField) -> Option<Seq<char>> {
    if h.contains_key(field_name(f)) {
        Some(h[field_name(f)])
    } else {
        None
    }
}

/// The first field that a get needs and `lookup` does not find.
pub open spec fn first_missing(lookup: spec_fn(RecordField) -> Option<Seq<char>>) -> Option<RecordField> {
    if lookup(RecordField::Email) is None {
        Some(RecordField::Email)
    } else if lookup(RecordField::Name) is None {
        Some(RecordField::Name)
    } else if lookup(RecordField::Created) is None {
        Some(RecordField::Created)
    } else if lookup(RecordField::Pic) is None {
        Some(RecordField::Pic)
    } else if lookup(RecordField::Points) is None {
        Some(RecordField::Points)
    } else {
        None
    }
}

/// The reply that a get owes for `lookup`, on a hash that `exists`.
pub open spec fn get_error(exists: bool, lookup: spec_fn(RecordField) -> Option<Seq<char>>) -> Option<RpcError> {
    if !exists {
        Some(RpcError::NotFound)
    } else if let Some(f) = first_missing(lookup) {
        Some(RpcError::IncompleteRecord(f))
    } else {
        None
    }
}

/// `resp` holds exactly what `lookup` finds for each field.
pub open spec fn reply_holds(resp: AccountGetResp, lookup: spec_fn(RecordField) -> Option<Seq<char>>) -> bool {
    &&& lookup(RecordField::Email) == Some(resp.email@)
    &&& lookup(RecordField::Name) == Some(resp.name@)
    &&& lookup(RecordField::Created) == Some(resp.created@)
    &&& lookup(RecordField::Pic) == Some(resp.pic@)
    &&& lookup(RecordField::Points) == Some(resp.points@)
}

/// The exact reply of a get, given whether the hash exists and what each field holds.
pub open spec fn get_reply_holds(
    r: Result<AccountGetResp, RpcError>,
    exists: bool,
    lookup: spec_fn(RecordField) -> Option<Seq<char>>,
) -> bool {
    match get_error(exists, lookup) {
        Some(e) => r == Err::<AccountGetResp, RpcError>(e),
        None => r is Ok && reply_holds(r->Ok_0, lookup),
    }
}

/// The hash `h` exists: it holds at least one field.
pub open spec fn hash_exists(h: Fields) -> bool {
    exists|f: Seq<char>| h.contains_key(f)
}

/// Looks the fields of a get up in hash `h`.
pub open spec fn lookup_in(h: Fields) -> spec_fn(RecordField) -> Option<Seq<char>> {
    |f: RecordField| field_of(h, f)
}

/// The pairs that a create writes, in order.
pub open spec fn create_pairs(req: AccountCreateReq) -> Seq<(Seq<char>, Seq<char>)> {
    seq![
        ("username"@, req.username@),
        ("created"@, req.created@),
        ("points"@, req.points@),
    ]
}

/// The value of the first pair of `fields` named `name`.
pub fn lookup_field(fields: &Vec<(String, String)>, name: &String) -> (r: Option<String>)
    ensures
        r matches Some(v) ==> field_in(pairs_view(fields@), name@) == Some(v@),
        r is None ==> field_in(pairs_view(fields@), name@) is None,
{
    let ghost fs = pairs_view(fields@);
    let mut i: usize = 0;
    while i < fields.len()
        invariant
            0 <= i <= fields@.len(),
            fs == pairs_view(fields@),
            forall|k: int| 0 <= k < i ==> (#[trigger] fs[k]).0 != name@,
        decreases fields@.len() - i,
    {
        assert(fs[i as int] == (fields@[i as int].0@, fields@[i as int].1@));
        if fields[i].0 == *name {
            assert(fs[i as int].0 == name@);
            let ghost j = choose|j: int|
                0 <= j < fs.len() && fs[j].0 == name@ && forall|k: int| 0 <= k < j ==> fs[k].0 != name@;
            assert(0 <= j < fs.len() && fs[j].0 == name@ && forall|k: int| 0 <= k < j ==> fs[k].0 != name@) by {
                assert(forall|k: int| 0 <= k < i ==> (#[trigger] fs[k]).0 != name@);
            }
            assert(j == i);
            assert(fs[i as int] == (fields@[i as int].0@, fields@[i as int].1@));
            assert(exists|j: int| 0 <= j < fs.len() && fs[j].0 == name@);
            reveal(field_in);
            return Some(fields[i].1.clone());
        }
        i += 1;
    }
    reveal(field_in);
    None
}

/// The service that maps account calls onto the hashes of a store.
///
/// A create writes `username`, `created` and `points`; a get needs `email`,
/// `name`, `created`, `pic` and `points`. The two sets are kept as they are:
/// `email`, `name` and `pic` must come into the hash by other means, and a get
/// of a hash that lacks one of the five fields answers `IncompleteRecord`
/// naming the first one missing, never a made-up value.
#[derive(Default)]
pub struct MyPairApi {}

impl MyPairApi {
    /// The pairs that a create of `req` writes into the hash at `req.id`.
    pub fn create_fields(&self, req: &AccountCreateReq) -> (r: Vec<(String, String)>)
        ensures
            pairs_view(r@) == create_pairs(*req),
    {
        let mut r: Vec<(String, String)> = Vec::new();
        r.push((String::from_str("username"), req.username.clone()));
        r.push((String::from_str("created"), req.created.clone()));
        r.push((String::from_str("points"), req.points.clone()));
        assert(pairs_view(r@) =~= create_pairs(*req));
        r
    }

    /// The reply to a create, given the outcome of its store write.
    pub fn create_reply(&self, written: Result<(), StoreFailure>) -> (r: Result<AccountCreateResp, RpcError>)
        ensures
            written is Ok ==> r == Ok::<AccountCreateResp, RpcError>(AccountCreateResp {}),
            written is Err ==> r == Err::<AccountCreateResp, RpcError>(RpcError::Internal),
    {
        match written {
            Ok(()) => Ok(AccountCreateResp {}),
            Err(_) => Err(RpcError::Internal),
        }
    }

    /// The reply to a get, given the outcome of reading all fields of the hash.
    /// An empty hash is one that does not exist.
    pub fn get_reply(&self, read: Result<Vec<(String, String)>, StoreFailure>) -> (r: Result<AccountGetResp, RpcError>)
        ensures
            read is Err ==> r == Err::<AccountGetResp, RpcError>(RpcError::Unavailable),
            read matches Ok(fs) ==> get_reply_holds(
                r,
                fs@.len() > 0,
                |f: RecordField| field_in(pairs_view(fs@), field_name(f)),
            ),
    {
        match read {
            Err(_) => Err(RpcError::Unavailable),
            Ok(fs) => {
                if fs.len() == 0 {
                    return Err(RpcError::NotFound);
                }
                let ghost lookup = |f: RecordField| field_in(pairs_view(fs@), field_name(f));
                let email = match lookup_field(&fs, &String::from_str("email")) {
                    Some(v) => v,
                    None => return Err(RpcError::IncompleteRecord(RecordField::Email)),
                };
                assert(lookup(RecordField::Email) == Some(email@));
                let name = match lookup_field(&fs, &String::from_str("name")) {
                    Some(v) => v,
                    None => return Err(RpcError::IncompleteRecord(RecordField::Name)),
                };
                assert(lookup(RecordField::Name) == Some(name@));
                let created = match lookup_field(&fs, &String::from_str("created")) {
                    Some(v) => v,
                    None => return Err(RpcError::IncompleteRecord(RecordField::Created)),
                };
                assert(lookup(RecordField::Created) == Some(created@));
                let pic = match lookup_field(&fs, &String::from_str("pic")) {
                    Some(v) => v,
                    None => return Err(RpcError::IncompleteRecord(RecordField::Pic)),
                };
                assert(lookup(RecordField::Pic) == Some(pic@));
                let points = match lookup_field(&fs, &String::from_str("points")) {
                    Some(v) => v,
                    None => return Err(RpcError::IncompleteRecord(RecordField::Points)),
                };
                assert(lookup(RecordField::Points) == Some(points@));
                Ok(AccountGetResp { email, name, created, pic, points })
            },
        }
    }
}

proof fn lemma_first_match(ps: Seq<(Seq<char>, Seq<char>)>, name: Seq<char>, w: int)
    requires
        0 <= w < ps.len(),
        ps[w].0 == name,
    ensures
        exists|j: int|
            0 <= j < ps.len() && ps[j].0 == name && forall|k: int| 0 <= k < j ==> ps[k].0 != name,
    decreases w,
{
    if exists|k: int| 0 <= k < w && ps[k].0 == name {
        let k = choose|k: int| 0 <= k < w && ps[k].0 == name;
        lemma_first_match(ps, name, k);
    } else {
        assert(0 <= w < ps.len() && ps[w].0 == name && forall|k: int| 0 <= k < w ==> ps[k].0 != name);
    }
}

proof fn lemma_listing_lookup(fs: Seq<(String, String)>, h: Fields, name: Seq<char>)
    requires
        forall|j: int|
            0 <= j < fs.len() ==> #[trigger] h.contains_key(fs[j].0@) && h[fs[j].0@] == fs[j].1@,
        forall|f: Seq<char>|
            #[trigger] h.contains_key(f) ==> exists|j: int| 0 <= j < fs.len() && fs[j].0@ == f,
    ensures
        field_in(pairs_view(fs), name) == if h.contains_key(name) {
            Some(h[name])
        } else {
            None::<Seq<char>>
        },
{
    reveal(field_in);
    let ps = pairs_view(fs);
    assert forall|j: int| 0 <= j < ps.len() implies #[trigger] ps[j] == (fs[j].0@, fs[j].1@) by {}
    if h.contains_key(name) {
        let w = choose|j: int| 0 <= j < fs.len() && fs[j].0@ == name;
        assert(ps[w].0 == name);
        lemma_first_match(ps, name, w);
        let j = choose|j: int|
            0 <= j < ps.len() && ps[j].0 == name && forall|k: int| 0 <= k < j ==> ps[k].0 != name;
        assert(h.contains_key(fs[j].0@));
    } else {
        assert forall|j: int| 0 <= j < ps.len() implies ps[j].0 != name by {
            assert(h.contains_key(fs[j].0@));
        }
    }
}

impl MyPairApi {
    /// Creates or overwrites the account `req.id` in `store`: the three fields
    /// of `req` are written in one step, other fields of the hash are kept.
    pub fn create_account(&self, store: &mut MemoryStore, req: &AccountCreateReq) -> (r: Result<AccountCreateResp, RpcError>)
        requires
            old(store).wf(),
        ensures
            final(store).wf(),
            final(store)@ == apply_writes(old(store)@, req.id@, create_pairs(*req)),
            r == Ok::<AccountCreateResp, RpcError>(AccountCreateResp {}),
    {
        let fields = self.create_fields(req);
        store.hset_multiple(&req.id, &fields);
        self.create_reply(Ok(()))
    }

    /// Reads the account `req.id` from `store`.
    pub fn get_account(&self, store: &MemoryStore, req: &AccountGetReq) -> (r: Result<AccountGetResp, RpcError>)
        requires
            store.wf(),
        ensures
            get_reply_holds(
                r,
                hash_exists(hash_of(store@, req.id@)),
                lookup_in(hash_of(store@, req.id@)),
            ),
    {
        let fs = store.hgetall(&req.id);
        let ghost h = hash_of(store@, req.id@);
        let ghost listed = |f: RecordField| field_in(pairs_view(fs@), field_name(f));
        proof {
            assert forall|j: int| 0 <= j < fs@.len() implies #[trigger] h.contains_key(fs@[j].0@)
                && h[fs@[j].0@] == fs@[j].1@ by {
                assert(store@.contains_key((req.id@, fs@[j].0@)));
            }
            assert forall|f: Seq<char>| #[trigger] h.contains_key(f) implies exists|j: int|
                0 <= j < fs@.len() && fs@[j].0@ == f by {
                assert(store@.contains_key((req.id@, f)));
            }
            assert forall|f: RecordField| #[trigger] listed(f) == lookup_in(h)(f) by {
                lemma_listing_lookup(fs@, h, field_name(f));
            }
            assert(listed =~= lookup_in(h));
            if fs@.len() > 0 {
                assert(h.contains_key(fs@[0].0@));
            } else {
                assert(!hash_exists(h)) by {
                    if hash_exists(h) {
                        let f = choose|f: Seq<char>| h.contains_key(f);
                        assert(h.contains_key(f));
                    }
                }
            }
        }
        self.get_reply(Ok(fs))
    }
}

/// Authentication placed in front of the account service: every call is
/// checked before the handler runs, and a refused call never reaches the store.
pub struct GuardedPairApi {
    pub verifier: Verifier,
    pub api: MyPairApi,
}

impl GuardedPairApi {
    /// Checks the `authorization` entry of a call.
    pub fn intercept(&self, authorization: Option<&str>) -> (r: Result<(), RpcError>)
        requires
            self.verifier.wf(),
        ensures
            authorization is None ==> r matches Err(RpcError::Unauthenticated(AuthError::MalformedToken)),
            authorization matches Some(t) && !has_two_dots(t@) ==> r matches Err(
                RpcError::Unauthenticated(AuthError::MalformedToken),
            ),
            r is Ok || r matches Err(RpcError::Unauthenticated(_)),
    {
        match self.verifier.verify(authorization) {
            Ok(()) => Ok(()),
            Err(e) => Err(RpcError::Unauthenticated(e)),
        }
    }

    /// A create that first checks the call's token. A call without a token,
    /// or with one that has fewer than two dots, is refused as malformed; any
    /// refused call leaves the store as it was.
    pub fn create_account(
        &self,
        authorization: Option<&str>,
        store: &mut MemoryStore,
        req: &AccountCreateReq,
    ) -> (r: Result<AccountCreateResp, RpcError>)
        requires
            self.verifier.wf(),
            old(store).wf(),
        ensures
            final(store).wf(),
            authorization is None ==> r matches Err(RpcError::Unauthenticated(AuthError::MalformedToken)),
            authorization matches Some(t) && !has_two_dots(t@) ==> r matches Err(
                RpcError::Unauthenticated(AuthError::MalformedToken),
            ),
            r matches Err(RpcError::Unauthenticated(_)) ==> final(store)@ == old(store)@,
            !(r matches Err(RpcError::Unauthenticated(_))) ==> r == Ok::<AccountCreateResp, RpcError>(AccountCreateResp {})
                && final(store)@ == apply_writes(old(store)@, req.id@, create_pairs(*req)),
    {
        match self.intercept(authorization) {
            Err(e) => Err(e),
            Ok(()) => self.api.create_account(store, req),
        }
    }

    /// A get that first checks the call's token. A call without a token, or
    /// with one that has fewer than two dots, is refused as malformed.
    pub fn get_account(&self, authorization: Option<&str>, store: &MemoryStore, req: &AccountGetReq) -> (r: Result<AccountGetResp, RpcError>)
        requires
            self.verifier.wf(),
            store.wf(),
        ensures
            authorization is None ==> r matches Err(RpcError::Unauthenticated(AuthError::MalformedToken)),
            authorization matches Some(t) && !has_two_dots(t@) ==> r matches Err(
                RpcError::Unauthenticated(AuthError::MalformedToken),
            ),
            !(r matches Err(RpcError::Unauthenticated(_))) ==> get_reply_holds(
                r,
                hash_exists(hash_of(store@, req.id@)),
                lookup_in(hash_of(store@, req.id@)),
            ),
    {
        match self.intercept(authorization) {
            Err(e) => Err(e),
            Ok(()) => self.api.get_account(store, req),
        }
    }
}

/// Round trip: once a create of `req` has been written over a hash that holds
/// `email`, `name` and `pic`, any reply that a get of `req.id` may give is a
/// success carrying `req.created` and `req.points` unchanged.
pub proof fn lemma_create_then_get(m: Cells, req: AccountCreateReq, r: Result<AccountGetResp, RpcError>)
    requires
        hash_of(m, req.id@).contains_key("email"@),
        hash_of(m, req.id@).contains_key("name"@),
        hash_of(m, req.id@).contains_key("pic"@),
        get_reply_holds(
            r,
            hash_exists(hash_of(apply_writes(m, req.id@, create_pairs(req)), req.id@)),
            lookup_in(hash_of(apply_writes(m, req.id@, create_pairs(req)), req.id@)),
        ),
    ensures
        r matches Ok(resp) && resp.created@ == req.created@ && resp.points@ == req.points@,
{
    reveal_strlit("email");
    reveal_strlit("name");
    reveal_strlit("pic");
    reveal_strlit("created");
    reveal_strlit("points");
    reveal_strlit("username");
    let k = req.id@;
    let ps = create_pairs(req);
    let m2 = apply_writes(m, k, ps);
    reveal_with_fuel(apply_writes, 4);
    assert(ps.drop_last().drop_last().drop_last() =~= Seq::<(Seq<char>, Seq<char>)>::empty());
    assert(m2 == m.insert((k, "username"@), req.username@).insert((k, "created"@), req.created@).insert(
        (k, "points"@),
        req.points@,
    ));
    let h2 = hash_of(m2, k);
    assert(h2.contains_key("email"@));
    assert(hash_exists(h2));
    assert("created"@.len() != "points"@.len());
    assert("created"@ != "points"@);
    assert(m2.contains_key((k, "created"@)) && m2[(k, "created"@)] == req.created@);
    assert(m2.contains_key((k, "points"@)) && m2[(k, "points"@)] == req.points@);
    assert(m2.contains_key((k, "email"@)));
    assert(h2.contains_key("created"@) && h2["created"@] == req.created@);
    assert(h2.contains_key("points"@) && h2["points"@] == req.points@);
    assert(field_of(h2, RecordField::Created) == Some(req.created@));
    assert(lookup_in(h2)(RecordField::Created) == Some(req.created@));
    assert(lookup_in(h2)(RecordField::Points) == Some(req.points@));
    assert(first_missing(lookup_in(h2)) is None);
}

/// Last writer wins: two creates of the same account, one after the other,
/// leave exactly what the second alone would leave; nothing of the first
/// remains in the fields they both write.
pub proof fn lemma_last_create_wins(m: Cells, first: AccountCreateReq, second: AccountCreateReq)
    requires
        first.id@ == second.id@,
    ensures
        apply_writes(apply_writes(m, first.id@, create_pairs(first)), second.id@, create_pairs(second))
            == apply_writes(m, second.id@, create_pairs(second)),
{
    let k = first.id@;
    let a = create_pairs(first);
    let b = create_pairs(second);
    reveal_with_fuel(apply_writes, 4);
    assert(a.drop_last().drop_last().drop_last() =~= Seq::<(Seq<char>, Seq<char>)>::empty());
    assert(b.drop_last().drop_last().drop_last() =~= Seq::<(Seq<char>, Seq<char>)>::empty());
    let ma = apply_writes(m, k, a);
    assert(ma == m.insert((k, "username"@), first.username@).insert((k, "created"@), first.created@).insert(
        (k, "points"@),
        first.points@,
    ));
    assert(apply_writes(ma, k, b) =~= apply_writes(m, k, b));
}

} // verus!
