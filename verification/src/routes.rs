//! Request orchestration: each use case validates its inputs, authorizes
//! when it mutates, acquires bytes, and delegates to the backend, mapping
//! every outcome to the HTTP status it is surfaced with.

use crate::auth::{opt_view, validate_key, validate_key_spec};
use crate::storage::Storage;
use crate::validate::{is_token, validate_file, validate_file_spec, validate_hash};
use vstd::prelude::*;
use vstd::string::StringExecFns;

verus! {

/// Liveness probe body.
pub fn healthcheck() -> (r: &'static str)
    ensures
        r@ == "ok"@,
{
    "ok"
}

// ---------------------------------------------------------------------------
// Identifier generation
// ---------------------------------------------------------------------------

/// IdentifierGenerator: a fresh unguessable token naming one stored
/// object.
///
/// Relies on `uuid::Uuid::new_v4` for a random 128-bit UUID and on its
/// `Display` form, which is always 36 characters: hyphens at positions 8,
/// 13, 18 and 23, lower-case hex digits everywhere else. The token is
/// random, so nothing beyond its shape can be promised.
#[verifier::external_body]
pub(crate) fn generate_identifier() -> (r: String)
    ensures
        is_token(r@),
{
    uuid::Uuid::new_v4().to_string()
}

// ---------------------------------------------------------------------------
// Keys and locations
// ---------------------------------------------------------------------------

/// The storage key a backend is addressed with: `<identifier>.<extension>`.
pub open spec fn storage_key_spec(id: Seq<char>, ext: Seq<char>) -> Seq<char> {
    id + "."@ + ext
}

/// Composes the storage key for an identifier and an extension.
pub fn storage_key(id: &str, ext: &str) -> (r: String)
    ensures
        r@ == storage_key_spec(id@, ext@),
{
    id.to_owned().concat(".").concat(ext)
}

/// The externally addressable location of a stored object: the configured
/// base URL, the literal `attachment` segment, the identifier, and the
/// human-readable filename.
pub open spec fn location_spec(base: Seq<char>, id: Seq<char>, filename: Seq<char>) -> Seq<char> {
    base + "/attachment/"@ + id + "/"@ + filename
}

/// Composes the externally addressable location string.
pub fn location(base_url: &str, id: &str, filename: &str) -> (r: String)
    ensures
        r@ == location_spec(base_url@, id@, filename@),
{
    base_url.to_owned().concat("/attachment/").concat(id).concat("/").concat(filename)
}

// ---------------------------------------------------------------------------
// Upload
// ---------------------------------------------------------------------------

/// The tail every upload shares once bytes are in hand: either the store
/// gained exactly the new key and the caller got its location, or the
/// backend fault was surfaced as 500 and the store is unchanged.
pub open spec fn upload_done(
    before: Map<Seq<char>, Seq<u8>>,
    after: Map<Seq<char>, Seq<u8>>,
    r: Result<String, u16>,
    id: Seq<char>,
    ext: Seq<char>,
    filename: Seq<char>,
    bytes: Seq<u8>,
    base: Seq<char>,
) -> bool {
    match r {
        Ok(loc) => after == before.insert(storage_key_spec(id, ext), bytes) && loc@
            == location_spec(base, id, filename),
        Err(c) => c == 500 && after == before,
    }
}

/// Direct upload: authorizes the caller, validates the claimed filename,
/// generates a fresh identifier, and persists the bytes under
/// `<identifier>.<extension>`. On success the externally addressable
/// location is returned; an unauthorized caller gets 401, a bad filename
/// its validation status, a backend fault 500 — each before any effect.
pub fn upload_file<S: Storage>(
    store: &mut S,
    api_key: Option<&str>,
    secret: &str,
    base_url: &str,
    filename: &str,
    bytes: Vec<u8>,
) -> (r: Result<String, u16>)
    ensures
        validate_key_spec(opt_view(api_key), secret@) is Err ==> r == Err::<String, u16>(401u16)
            && final(store).contents() == old(store).contents(),
        validate_key_spec(opt_view(api_key), secret@) is Ok ==> (validate_file_spec(
            filename@,
        ) matches Err(c) ==> r == Err::<String, u16>(c) && final(store).contents()
            == old(store).contents()),
        validate_key_spec(opt_view(api_key), secret@) is Ok ==> (validate_file_spec(
            filename@,
        ) matches Ok(p) ==> exists|id: Seq<char>|
            #[trigger] is_token(id) && upload_done(
                old(store).contents(),
                final(store).contents(),
                r,
                id,
                p.1,
                p.0,
                bytes@,
                base_url@,
            )),
{
    if let Err(c) = validate_key(api_key, secret) {
        return Err(c);
    }
    let (name, ext) = match validate_file(filename) {
        Ok(p) => p,
        Err(c) => {
            return Err(c);
        },
    };
    let id = generate_identifier();
    let key = storage_key(id.as_str(), ext.as_str());
    match store.save(key.as_str(), bytes) {
        Ok(()) => Ok(location(base_url, id.as_str(), name.as_str())),
        Err(_) => Err(500),
    }
}

// ---------------------------------------------------------------------------
// Upload by URL
// ---------------------------------------------------------------------------

/// What `url::Url::parse` yields as the path component of its input, when
/// the input parses as a URL at all. Parsing is a function of the input
/// alone.
pub uninterp spec fn url_path_spec(raw: Seq<char>) -> Option<Seq<char>>;

/// Relies on `url::Url::parse` and `url::Url::path`: parsing either
/// refuses the input or yields a URL whose path component `path` returns,
/// both determined by the input alone.
#[verifier::external_body]
fn parse_url_path(raw: &str) -> (r: Option<String>)
    ensures
        r is Some <==> url_path_spec(raw@) is Some,
        r matches Some(p) ==> url_path_spec(raw@) == Some(p@),
{
    match url::Url::parse(raw) {
        Ok(u) => Some(u.path().to_string()),
        Err(_) => None,
    }
}

/// A URL upload that passed authorization and filename validation; its
/// fields come only out of `plan_url_upload`.
pub struct UrlUploadPlan {
    filename: String,
    extension: String,
}

impl UrlUploadPlan {
    /// The claimed filename: the URL path's final segment.
    pub closed spec fn filename_view(&self) -> Seq<char> {
        self.filename@
    }

    /// The validated extension of the claimed filename.
    pub closed spec fn extension_view(&self) -> Seq<char> {
        self.extension@
    }

    /// The claimed filename, as echoed in the location string.
    pub fn filename(&self) -> (r: &str)
        ensures
            r@ == self.filename_view(),
    {
        self.filename.as_str()
    }

    /// The validated extension.
    pub fn extension(&self) -> (r: &str)
        ensures
            r@ == self.extension_view(),
    {
        self.extension.as_str()
    }
}

/// What planning a URL upload decides: the authorization and the URL are
/// checked, then the URL path's final segment is validated like any other
/// claimed filename.
pub open spec fn plan_url_upload_spec(
    api_key: Option<Seq<char>>,
    secret: Seq<char>,
    raw_url: Seq<char>,
) -> Result<(Seq<char>, Seq<char>), u16> {
    if validate_key_spec(api_key, secret) is Err {
        Err(401u16)
    } else {
        match url_path_spec(raw_url) {
            None => Err(400u16),
            Some(path) => validate_file_spec(path),
        }
    }
}

/// First half of a URL upload, everything before the outbound fetch:
/// authorizes the caller, parses the URL (a malformed one is 400), and
/// validates the path's final segment as the claimed filename.
pub fn plan_url_upload(api_key: Option<&str>, secret: &str, raw_url: &str) -> (r: Result<
    UrlUploadPlan,
    u16,
>)
    ensures
        r matches Ok(plan) ==> plan_url_upload_spec(opt_view(api_key), secret@, raw_url@)
            == Ok::<(Seq<char>, Seq<char>), u16>((plan.filename_view(), plan.extension_view())),
        r matches Err(c) ==> plan_url_upload_spec(opt_view(api_key), secret@, raw_url@)
            == Err::<(Seq<char>, Seq<char>), u16>(c),
{
    if let Err(c) = validate_key(api_key, secret) {
        return Err(c);
    }
    let path = match parse_url_path(raw_url) {
        Some(p) => p,
        None => {
            return Err(400);
        },
    };
    match validate_file(path.as_str()) {
        Ok((name, ext)) => Ok(UrlUploadPlan { filename: name, extension: ext }),
        Err(c) => Err(c),
    }
}

/// How the outbound fetch ended, as the surrounding process observed it.
pub enum FetchOutcome {
    /// The upstream host could not be reached at all.
    Unreachable,
    /// The upstream answered with this non-success status.
    Upstream(u16),
    /// The upstream answered successfully but its body could not be read.
    BodyUnreadable,
    /// The upstream answered successfully with these bytes.
    Body(Vec<u8>),
}

/// Maps a fetch outcome to the body bytes or to the status surfaced to the
/// caller: an unreachable upstream is 502, a non-success upstream answer
/// keeps its own status when one can be carried, an unreadable body is
/// 424.
pub open spec fn classify_fetch_spec(f: FetchOutcome) -> Result<Seq<u8>, u16> {
    match f {
        FetchOutcome::Unreachable => Err(502u16),
        FetchOutcome::Upstream(s) => if 400 <= s <= 599 {
            Err(s)
        } else {
            Err(502u16)
        },
        FetchOutcome::BodyUnreadable => Err(424u16),
        FetchOutcome::Body(b) => Ok(b@),
    }
}

/// Decides what a fetch outcome means for the caller: the body bytes to
/// persist, or the status to surface.
pub fn classify_fetch(fetch: FetchOutcome) -> (r: Result<Vec<u8>, u16>)
    ensures
        r matches Ok(bytes) ==> classify_fetch_spec(fetch) == Ok::<Seq<u8>, u16>(bytes@),
        r matches Err(c) ==> classify_fetch_spec(fetch) == Err::<Seq<u8>, u16>(c),
{
    match fetch {
        FetchOutcome::Unreachable => Err(502),
        FetchOutcome::Upstream(s) => Err(if 400 <= s && s <= 599 { s } else { 502 }),
        FetchOutcome::BodyUnreadable => Err(424),
        FetchOutcome::Body(b) => Ok(b),
    }
}

/// Second half of a URL upload, once the fetch has been attempted: a
/// failed fetch is surfaced without any effect on the store; a successful
/// one is persisted exactly like a direct upload of its bytes.
pub fn upload_fetched<S: Storage>(
    store: &mut S,
    plan: &UrlUploadPlan,
    base_url: &str,
    fetch: FetchOutcome,
) -> (r: Result<String, u16>)
    ensures
        classify_fetch_spec(fetch) matches Err(c) ==> r == Err::<String, u16>(c)
            && final(store).contents() == old(store).contents(),
        classify_fetch_spec(fetch) matches Ok(bytes) ==> exists|id: Seq<char>|
            #[trigger] is_token(id) && upload_done(
                old(store).contents(),
                final(store).contents(),
                r,
                id,
                plan.extension_view(),
                plan.filename_view(),
                bytes,
                base_url@,
            ),
{
    let bytes = match classify_fetch(fetch) {
        Ok(b) => b,
        Err(c) => {
            return Err(c);
        },
    };
    let id = generate_identifier();
    let key = storage_key(id.as_str(), plan.extension());
    match store.save(key.as_str(), bytes) {
        Ok(()) => Ok(location(base_url, id.as_str(), plan.filename())),
        Err(_) => Err(500),
    }
}

// ---------------------------------------------------------------------------
// Retrieval
// ---------------------------------------------------------------------------

/// What retrieval yields: the supplied filename is validated for its
/// extension, the identifier must be a well-formed token, and the bytes
/// under `<identifier>.<extension>` are returned; an absent key — and any
/// backend failure — is 404, so storage-layer state never leaks.
pub open spec fn get_file_spec(
    m: Map<Seq<char>, Seq<u8>>,
    hash: Seq<char>,
    filename: Seq<char>,
) -> Result<Seq<u8>, u16> {
    match validate_file_spec(filename) {
        Err(c) => Err(c),
        Ok(p) => if !is_token(hash) {
            Err(400u16)
        } else if m.contains_key(storage_key_spec(hash, p.1)) {
            Ok(m[storage_key_spec(hash, p.1)])
        } else {
            Err(404u16)
        },
    }
}

/// Serves a stored object back: public, addressed by identifier plus a
/// filename whose extension completes the storage key.
pub fn get_file<S: Storage>(store: &S, hash: &str, filename: &str) -> (r: Result<Vec<u8>, u16>)
    ensures
        r matches Ok(bytes) ==> get_file_spec(store.contents(), hash@, filename@) == Ok::<
            Seq<u8>,
            u16,
        >(bytes@),
        r matches Err(c) ==> get_file_spec(store.contents(), hash@, filename@) == Err::<
            Seq<u8>,
            u16,
        >(c),
{
    let (_, ext) = match validate_file(filename) {
        Ok(p) => p,
        Err(c) => {
            return Err(c);
        },
    };
    let hash = match validate_hash(hash) {
        Ok(h) => h,
        Err(c) => {
            return Err(c);
        },
    };
    let key = storage_key(hash.as_str(), ext.as_str());
    match store.load(key.as_str()) {
        Ok(bytes) => Ok(bytes),
        Err(_) => Err(404),
    }
}

// ---------------------------------------------------------------------------
// Deletion
// ---------------------------------------------------------------------------

/// What deletion decides and does over a backend that does not fault:
/// authorization first, then validation, then the key is removed — whether
/// or not it was present.
pub open spec fn delete_file_spec(
    m: Map<Seq<char>, Seq<u8>>,
    api_key: Option<Seq<char>>,
    secret: Seq<char>,
    hash: Seq<char>,
    filename: Seq<char>,
) -> (Result<(), u16>, Map<Seq<char>, Seq<u8>>) {
    if validate_key_spec(api_key, secret) is Err {
        (Err(401u16), m)
    } else {
        match validate_file_spec(filename) {
            Err(c) => (Err(c), m),
            Ok(p) => if !is_token(hash) {
                (Err(400u16), m)
            } else {
                (Ok(()), m.remove(storage_key_spec(hash, p.1)))
            },
        }
    }
}

/// Deletes a stored object: authorizes the caller, validates the
/// filename and the identifier, and removes the composed key. A backend
/// fault is surfaced as 404, indistinguishable from the key never having
/// existed; deleting an absent key succeeds and changes nothing.
pub fn delete_file<S: Storage>(
    store: &mut S,
    api_key: Option<&str>,
    secret: &str,
    hash: &str,
    filename: &str,
) -> (r: Result<(), u16>)
    ensures
        r matches Ok(u) ==> (Ok::<(), u16>(u), final(store).contents()) == delete_file_spec(
            old(store).contents(),
            opt_view(api_key),
            secret@,
            hash@,
            filename@,
        ),
        r matches Err(c) ==> final(store).contents() == old(store).contents() && (c == 404
            && delete_file_spec(
            old(store).contents(),
            opt_view(api_key),
            secret@,
            hash@,
            filename@,
        ).0 is Ok || delete_file_spec(
            old(store).contents(),
            opt_view(api_key),
            secret@,
            hash@,
            filename@,
        ).0 == Err::<(), u16>(c)),
        validate_file_spec(filename@) matches Ok(p) && delete_file_spec(
            old(store).contents(),
            opt_view(api_key),
            secret@,
            hash@,
            filename@,
        ).0 is Ok && !old(store).contents().contains_key(storage_key_spec(hash@, p.1)) ==> r
            == Ok::<(), u16>(()) && final(store).contents() == old(store).contents(),
{
    if let Err(c) = validate_key(api_key, secret) {
        return Err(c);
    }
    let (_, ext) = match validate_file(filename) {
        Ok(p) => p,
        Err(c) => {
            return Err(c);
        },
    };
    let hash = match validate_hash(hash) {
        Ok(h) => h,
        Err(c) => {
            return Err(c);
        },
    };
    let key = storage_key(hash.as_str(), ext.as_str());
    let ghost key_view = key@;
    match store.delete(key.as_str()) {
        Ok(()) => {
            proof {
                if !old(store).contents().contains_key(key_view) {
                    assert(old(store).contents().remove(key_view) =~= old(store).contents());
                }
            }
            Ok(())
        },
        Err(_) => Err(404),
    }
}

// ---------------------------------------------------------------------------
// Laws
// ---------------------------------------------------------------------------

/// Round trip: after saving bytes under an identifier with extension
/// `ext`, retrieval with that identifier and any filename that validates
/// to the same extension returns exactly those bytes.
pub proof fn lemma_save_then_load(
    m: Map<Seq<char>, Seq<u8>>,
    id: Seq<char>,
    ext: Seq<char>,
    bytes: Seq<u8>,
    filename: Seq<char>,
)
    requires
        is_token(id),
        validate_file_spec(filename) matches Ok(p) && p.1 == ext,
    ensures
        get_file_spec(m.insert(storage_key_spec(id, ext), bytes), id, filename) == Ok::<
            Seq<u8>,
            u16,
        >(bytes),
{
}

/// The filename echoed in a location string retrieves the upload: when
/// validation accepted a claimed name, saving bytes under the generated
/// identifier and the name's extension makes retrieval with that
/// identifier and the sanitized name return exactly those bytes.
pub proof fn lemma_location_filename_retrieves(
    m: Map<Seq<char>, Seq<u8>>,
    id: Seq<char>,
    raw: Seq<char>,
    bytes: Seq<u8>,
)
    requires
        is_token(id),
        validate_file_spec(raw) is Ok,
    ensures
        get_file_spec(
            m.insert(storage_key_spec(id, validate_file_spec(raw)->Ok_0.1), bytes),
            id,
            validate_file_spec(raw)->Ok_0.0,
        ) == Ok::<Seq<u8>, u16>(bytes),
{
    crate::validate::lemma_validate_idempotent(raw);
    lemma_save_then_load(
        m,
        id,
        validate_file_spec(raw)->Ok_0.1,
        bytes,
        validate_file_spec(raw)->Ok_0.0,
    );
}

/// Storage keys built from distinct identifiers are distinct.
pub proof fn lemma_distinct_ids_distinct_keys(
    id1: Seq<char>,
    ext1: Seq<char>,
    id2: Seq<char>,
    ext2: Seq<char>,
)
    requires
        is_token(id1),
        is_token(id2),
        id1 != id2,
    ensures
        storage_key_spec(id1, ext1) != storage_key_spec(id2, ext2),
{
    let k1 = storage_key_spec(id1, ext1);
    let k2 = storage_key_spec(id2, ext2);
    if k1 == k2 {
        assert(k1.subrange(0, 36) =~= id1);
        assert(k2.subrange(0, 36) =~= id2);
    }
}

/// Two uploads under distinct identifiers never observe each other's
/// bytes: with both keys stored, each retrieval sees exactly the bytes
/// saved under its own identifier, whichever save landed first.
pub proof fn lemma_distinct_uploads_independent(
    m: Map<Seq<char>, Seq<u8>>,
    id1: Seq<char>,
    ext1: Seq<char>,
    bytes1: Seq<u8>,
    filename1: Seq<char>,
    id2: Seq<char>,
    ext2: Seq<char>,
    bytes2: Seq<u8>,
    filename2: Seq<char>,
)
    requires
        is_token(id1),
        is_token(id2),
        id1 != id2,
        validate_file_spec(filename1) matches Ok(p) && p.1 == ext1,
        validate_file_spec(filename2) matches Ok(p) && p.1 == ext2,
    ensures
        get_file_spec(
            m.insert(storage_key_spec(id1, ext1), bytes1).insert(
                storage_key_spec(id2, ext2),
                bytes2,
            ),
            id1,
            filename1,
        ) == Ok::<Seq<u8>, u16>(bytes1),
        get_file_spec(
            m.insert(storage_key_spec(id1, ext1), bytes1).insert(
                storage_key_spec(id2, ext2),
                bytes2,
            ),
            id2,
            filename2,
        ) == Ok::<Seq<u8>, u16>(bytes2),
{
    lemma_distinct_ids_distinct_keys(id1, ext1, id2, ext2);
}

/// Deletion is idempotent: its outcome does not depend on the store at
/// all, deleting an absent key leaves the store untouched, and deleting
/// twice leaves exactly what deleting once left.
pub proof fn lemma_delete_idempotent(
    m0: Map<Seq<char>, Seq<u8>>,
    m1: Map<Seq<char>, Seq<u8>>,
    api_key: Option<Seq<char>>,
    secret: Seq<char>,
    hash: Seq<char>,
    filename: Seq<char>,
)
    ensures
        delete_file_spec(m0, api_key, secret, hash, filename).0 == delete_file_spec(
            m1,
            api_key,
            secret,
            hash,
            filename,
        ).0,
        validate_file_spec(filename) matches Ok(p) && !m0.contains_key(
            storage_key_spec(hash, p.1),
        ) ==> delete_file_spec(m0, api_key, secret, hash, filename).1 =~= m0,
        delete_file_spec(
            delete_file_spec(m1, api_key, secret, hash, filename).1,
            api_key,
            secret,
            hash,
            filename,
        ).1 =~= delete_file_spec(m1, api_key, secret, hash, filename).1,
{
}

} // verus!
