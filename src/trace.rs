//! Trace records and their Ed25519 signatures.
//!
//! A trace is signed over its canonical string
//! `plan_id ":" step_id ":" ts ":" event_type`; the signature is stored in
//! standard base64.
use crate::json::{Json, JsonView};
use crate::text::owned;
use vstd::prelude::*;

verus! {

/// A UTC instant: seconds since the Unix epoch and the nanoseconds past them.
#[derive(Clone, Copy, Debug, PartialEq, Eq, Structural)]
pub struct Timestamp {
    pub secs: i64,
    pub nanos: u32,
}

impl Timestamp {
    /// Seconds since the Unix epoch.
    pub fn timestamp(&self) -> (r: i64)
        ensures
            r == self.secs,
    {
        self.secs
    }
}

pub struct Trace {
    pub plan_id: String,
    pub step_id: String,
    pub ts: Timestamp,
    pub event_type: String,
    /// In nano-dollars.
    pub cost_usd: Option<u64>,
    pub tokens_in: Option<u64>,
    pub tokens_out: Option<u64>,
    pub citations: Option<Vec<String>>,
    pub signature: Option<String>,
    pub data: Option<Json>,
}

/// Signs traces with an Ed25519 keypair, held as its 64 bytes (secret half,
/// then public half), beside its 32-byte public key.
pub struct TraceSigner {
    keypair: Vec<u8>,
    public_key: Vec<u8>,
}

pub enum TraceError {
    SignatureError(String),
}

/// How chrono displays a UTC instant (`2024-01-02 03:04:05.123 UTC`).
pub uninterp spec fn timestamp_text(secs: i64, nanos: u32) -> Seq<char>;

/// chrono can represent the instant `secs` seconds and `nanos` nanoseconds
/// after the epoch.
pub uninterp spec fn timestamp_representable(secs: i64, nanos: u32) -> bool;

/// The standard base64 encoding, with padding, of some bytes.
pub uninterp spec fn base64_of(bytes: Seq<u8>) -> Seq<char>;

/// The canonical string that a signature covers.
pub open spec fn canonical(plan_id: Seq<char>, step_id: Seq<char>, ts: Seq<char>, event_type: Seq<char>) -> Seq<char> {
    plan_id + seq![':'] + step_id + seq![':'] + ts + seq![':'] + event_type
}

/// The data that a fresh trace carries: its description.
pub open spec fn description_data(description: Seq<char>) -> JsonView {
    JsonView::Object(seq![("description"@, JsonView::Str(description))])
}

/// Relies on `chrono::Utc::now`: the current instant.
#[verifier::external_body]
fn now_utc() -> (r: Timestamp) {
    let t = chrono::Utc::now();
    Timestamp { secs: t.timestamp(), nanos: t.timestamp_subsec_nanos() }
}

/// Relies on `uuid::Uuid::new_v4` and its hyphenated display, 36 characters.
#[verifier::external_body]
fn uuid_v4_text() -> (r: String)
    ensures
        r@.len() == 36,
{
    uuid::Uuid::new_v4().to_string()
}

/// Relies on `chrono::DateTime::from_timestamp` and its display; `None` for
/// an instant out of chrono's range.
#[verifier::external_body]
fn timestamp_display(secs: i64, nanos: u32) -> (r: Option<String>)
    ensures
        r matches Some(t) ==> t@ == timestamp_text(secs, nanos),
        r is Some <==> timestamp_representable(secs, nanos),
{
    chrono::DateTime::from_timestamp(secs, nanos).map(|t| t.to_string())
}

/// The bytes of a keypair are accepted by `ed25519_dalek::Keypair::from_bytes`.
pub uninterp spec fn keypair_valid(keypair: Seq<u8>) -> bool;

/// The public half of a keypair's bytes is the public key of its secret half.
pub uninterp spec fn keypair_consistent(keypair: Seq<u8>) -> bool;

/// The public key bytes of a keypair, as `ed25519_dalek` reads them.
pub uninterp spec fn public_of(keypair: Seq<u8>) -> Seq<u8>;

/// The Ed25519 signature bytes of a message's UTF-8 under a keypair.
pub uninterp spec fn signature_of(keypair: Seq<u8>, message: Seq<char>) -> Seq<u8>;

/// Relies on `ed25519_dalek::Keypair::generate` with the operating system's
/// random source and `Keypair::to_bytes`: a fresh keypair, whose bytes read
/// back and whose public half belongs to its secret half.
#[verifier::external_body]
fn ed25519_generate() -> (r: Vec<u8>)
    ensures
        r@.len() == 64,
        keypair_valid(r@),
        keypair_consistent(r@),
{
    let mut rng = rand::rngs::OsRng;
    ed25519_dalek::Keypair::generate(&mut rng).to_bytes().to_vec()
}

/// Relies on `ed25519_dalek::Keypair::from_bytes` and its `public` field.
#[verifier::external_body]
fn ed25519_public(keypair: &Vec<u8>) -> (r: Option<Vec<u8>>)
    ensures
        r is Some <==> keypair_valid(keypair@),
        r matches Some(p) ==> p@ == public_of(keypair@),
{
    ed25519_dalek::Keypair::from_bytes(keypair).ok().map(|k| k.public.to_bytes().to_vec())
}

/// Relies on `ed25519_dalek::Keypair::from_bytes`, `Signer::sign` and
/// `Signature::to_bytes`: Ed25519 signing is deterministic (RFC 8032).
#[verifier::external_body]
fn ed25519_sign(keypair: &Vec<u8>, message: &str) -> (r: Option<Vec<u8>>)
    ensures
        r is Some <==> keypair_valid(keypair@),
        r matches Some(s) ==> s@ == signature_of(keypair@, message@) && s@.len() == 64,
{
    ed25519_dalek::Keypair::from_bytes(keypair)
        .ok()
        .map(|k| ed25519_dalek::Signer::sign(&k, message.as_bytes()).to_bytes().to_vec())
}

/// `ed25519_dalek` reads the public key and the signature and accepts the
/// signature on the message's UTF-8.
pub uninterp spec fn ed25519_accepts(public_key: Seq<u8>, message: Seq<char>, sig: Seq<u8>) -> bool;

/// Relies on `ed25519_dalek::PublicKey::from_bytes`, `Signature::from_bytes`
/// and `Verifier::verify`: a signature that a consistent keypair made on the
/// message verifies under that keypair's public key (RFC 8032).
#[verifier::external_body]
fn ed25519_verify(public_key: &Vec<u8>, message: &str, sig: &Vec<u8>) -> (r: Result<(), String>)
    ensures
        r is Ok <==> ed25519_accepts(public_key@, message@, sig@),
        (exists|kp: Seq<u8>| keypair_valid(kp) && keypair_consistent(kp) && public_key@ == public_of(kp)
            && sig@ == signature_of(kp, message@)) ==> r is Ok,
{
    let pk = ed25519_dalek::PublicKey::from_bytes(public_key).map_err(|e| e.to_string())?;
    let s = ed25519_dalek::Signature::from_bytes(sig.as_slice()).map_err(|e| e.to_string())?;
    ed25519_dalek::Verifier::verify(&pk, message.as_bytes(), &s).map_err(|e| e.to_string())
}

/// Relies on `base64::Engine::encode` with the `STANDARD` engine.
#[verifier::external_body]
fn base64_encode(bytes: &Vec<u8>) -> (r: String)
    ensures
        r@ == base64_of(bytes@),
{
    base64::Engine::encode(&base64::engine::general_purpose::STANDARD, bytes)
}

/// Relies on `base64::Engine::decode` with the `STANDARD` engine, which
/// accepts canonical encodings only: what it decodes encodes back to the input.
#[verifier::external_body]
fn base64_decode(s: &str) -> (r: Result<Vec<u8>, String>)
    ensures
        r matches Ok(b) ==> base64_of(b@) == s@,
        forall|b: Seq<u8>| base64_of(b) == s@ ==> r is Ok && r->Ok_0@ == b,
{
    base64::Engine::decode(&base64::engine::general_purpose::STANDARD, s).map_err(|e| e.to_string())
}

fn error(msg: &str) -> (r: TraceError)
    ensures
        r == TraceError::SignatureError(r->SignatureError_0) && r->SignatureError_0@ == msg@,
{
    TraceError::SignatureError(owned(msg))
}

impl Trace {
    /// A trace with a fresh plan id and the current time, carrying its
    /// description as data.
    pub fn new(event_type: String, step_id: String, description: String) -> (r: Trace)
        ensures
            r.event_type == event_type,
            r.step_id == step_id,
            r.plan_id@.len() == 36,
            r.cost_usd is None && r.tokens_in is None && r.tokens_out is None,
            r.citations is None && r.signature is None,
            r.data is Some && r.data->0@ == description_data(description@),
    {
        let plan_id = uuid_v4_text();
        Trace::with_plan_id(plan_id, event_type, step_id, description)
    }

    /// A trace of the given plan at the current time, carrying its
    /// description as data.
    pub fn with_plan_id(plan_id: String, event_type: String, step_id: String, description: String) -> (r: Trace)
        ensures
            r.plan_id == plan_id,
            r.event_type == event_type,
            r.step_id == step_id,
            r.cost_usd is None && r.tokens_in is None && r.tokens_out is None,
            r.citations is None && r.signature is None,
            r.data is Some && r.data->0@ == description_data(description@),
    {
        let mut fields: Vec<(String, Json)> = Vec::new();
        fields.push((String::from_str("description"), Json::Str(description)));
        let data = Json::Object(fields);
        proof {
            crate::json::lemma_members_view(fields@);
            assert(crate::json::field_views(fields@) =~= seq![("description"@, JsonView::Str(description@))]);
        }
        Trace {
            plan_id,
            step_id,
            ts: now_utc(),
            event_type,
            cost_usd: None,
            tokens_in: None,
            tokens_out: None,
            citations: None,
            signature: None,
            data: Some(data),
        }
    }

    /// The canonical string of this trace; `None` when chrono cannot display
    /// its timestamp.
    pub fn canonical_message(&self) -> (r: Option<String>)
        ensures
            r is Some <==> timestamp_representable(self.ts.secs, self.ts.nanos),
            r matches Some(m) ==> m@ == canonical(self.plan_id@, self.step_id@,
                timestamp_text(self.ts.secs, self.ts.nanos), self.event_type@),
    {
        match timestamp_display(self.ts.secs, self.ts.nanos) {
            Some(ts) => {
                let mut m = self.plan_id.clone();
                m.append(":");
                m.append(self.step_id.as_str());
                m.append(":");
                m.append(ts.as_str());
                m.append(":");
                m.append(self.event_type.as_str());
                proof {
                    reveal_strlit(":");
                    assert(m@ =~= canonical(self.plan_id@, self.step_id@, ts@, self.event_type@));
                }
                Some(m)
            },
            None => None,
        }
    }

    /// Signs the canonical string with `keypair` and stores the base64
    /// signature; nothing else changes.
    pub fn sign(&mut self, keypair: &Vec<u8>) -> (r: Result<(), TraceError>)
        ensures
            r is Ok ==> final(self).signature == Some(final(self).signature->0) && final(self).signature->0@ == base64_of(
                signature_of(keypair@, canonical(old(self).plan_id@, old(self).step_id@,
                    timestamp_text(old(self).ts.secs, old(self).ts.nanos), old(self).event_type@)),
            ),
            final(self).plan_id == old(self).plan_id,
            final(self).step_id == old(self).step_id,
            final(self).ts == old(self).ts,
            final(self).event_type == old(self).event_type,
            final(self).data == old(self).data,
            r is Ok ==> exists|sig: Seq<u8>|
                sig.len() == 64 && final(self).signature == Some(final(self).signature->0) && final(self).signature->0@ == base64_of(sig),
            r is Err ==> final(self).signature == old(self).signature,
            r is Ok <==> timestamp_representable(old(self).ts.secs, old(self).ts.nanos) && keypair_valid(keypair@),
    {
        match self.canonical_message() {
            Some(message) => {
                match ed25519_sign(keypair, message.as_str()) {
                    Some(sig) => {
                        let encoded = base64_encode(&sig);
                        self.signature = Some(encoded);
                        Ok(())
                    },
                    None => Err(error("invalid keypair")),
                }
            },
            None => Err(error("timestamp out of range")),
        }
    }

    /// Checks the stored signature against `public_key`: `Ok(true)` when it
    /// verifies; an error when there is none, it is not base64, it does not
    /// decode to 64 bytes, or it does not verify.
    pub fn verify_signature(&self, public_key: &Vec<u8>) -> (r: Result<bool, TraceError>)
        ensures
            (exists|kp: Seq<u8>| keypair_valid(kp) && keypair_consistent(kp) && public_key@ == public_of(kp)
                && self.signature == Some(self.signature->0) && self.signature->0@ == base64_of(signature_of(kp,
                canonical(self.plan_id@, self.step_id@, timestamp_text(self.ts.secs, self.ts.nanos), self.event_type@))))
                && timestamp_representable(self.ts.secs, self.ts.nanos) ==> r == Ok::<bool, TraceError>(true),
            self.signature is None ==> r is Err,
            r is Ok ==> r == Ok::<bool, TraceError>(true),
            r is Ok ==> self.signature is Some && exists|sig: Seq<u8>| self.signature->0@ == base64_of(sig),
            r is Ok <==> (self.signature is Some && timestamp_representable(self.ts.secs, self.ts.nanos)
                && exists|sig: Seq<u8>| self.signature->0@ == base64_of(sig) && ed25519_accepts(public_key@,
                    canonical(self.plan_id@, self.step_id@, timestamp_text(self.ts.secs, self.ts.nanos), self.event_type@), sig)),
    {
        match &self.signature {
            Some(sig_str) => {
                let bytes = match base64_decode(sig_str.as_str()) {
                    Ok(b) => b,
                    Err(e) => {
                        return Err(TraceError::SignatureError(e));
                    },
                };
                let message = match self.canonical_message() {
                    Some(m) => m,
                    None => {
                        return Err(error("timestamp out of range"));
                    },
                };
                proof {
                    if exists|kp: Seq<u8>| keypair_valid(kp) && keypair_consistent(kp) && public_key@ == public_of(kp)
                        && sig_str@ == base64_of(signature_of(kp, message@)) {
                        let kp = choose|kp: Seq<u8>| keypair_valid(kp) && keypair_consistent(kp) && public_key@ == public_of(kp)
                            && sig_str@ == base64_of(signature_of(kp, message@));
                        assert(bytes@ == signature_of(kp, message@));
                    }
                }
                match ed25519_verify(public_key, message.as_str(), &bytes) {
                    Ok(()) => Ok(true),
                    Err(e) => if bytes.len() != 64 {
                        Err(error("Invalid signature length"))
                    } else {
                        Err(TraceError::SignatureError(e))
                    },
                }
            },
            None => Err(error("No signature present")),
        }
    }
}

impl TraceSigner {
    /// A signer with a fresh keypair.
    pub fn new() -> (r: Result<TraceSigner, TraceError>)
        ensures
            r is Ok,
            r matches Ok(s) ==> s.well_formed(),
    {
        let keypair = ed25519_generate();
        match ed25519_public(&keypair) {
            Some(public_key) => Ok(TraceSigner { keypair, public_key }),
            None => Err(error("invalid keypair")),
        }
    }

    /// The keypair reads back, its halves belong together, and the public
    /// key is its public half.
    pub closed spec fn well_formed(&self) -> bool {
        keypair_valid(self.keypair@) && keypair_consistent(self.keypair@) && self.public_key@ == public_of(
            self.keypair@,
        )
    }

    /// The bytes of this signer's public key.
    pub closed spec fn public_key_view(&self) -> Seq<u8> {
        self.public_key@
    }

    /// Whether `trace` holds a signature that this signer made on it.
    pub closed spec fn signed(&self, trace: Trace) -> bool {
        trace.signature == Some(trace.signature->0) && trace.signature->0@ == base64_of(signature_of(self.keypair@,
            canonical(trace.plan_id@, trace.step_id@, timestamp_text(trace.ts.secs, trace.ts.nanos), trace.event_type@)))
    }

    /// Signs `trace` with this signer's key.
    pub fn sign_trace(&self, trace: &mut Trace) -> (r: Result<(), TraceError>)
        ensures
            final(trace).plan_id == old(trace).plan_id,
            final(trace).step_id == old(trace).step_id,
            final(trace).ts == old(trace).ts,
            final(trace).event_type == old(trace).event_type,
            final(trace).data == old(trace).data,
            r is Ok ==> self.signed(*final(trace)),
            self.well_formed() ==> (r is Ok <==> timestamp_representable(old(trace).ts.secs, old(trace).ts.nanos)),
    {
        trace.sign(&self.keypair)
    }

    /// The public half of this signer's key.
    pub fn get_public_key(&self) -> (r: &Vec<u8>)
        ensures
            r@ == self.public_key_view(),
    {
        &self.public_key
    }
}

/// A trace that a well-formed signer signed, and whose signed fields are
/// unchanged since, verifies under the signer's public key.
pub proof fn lemma_signature_round_trip(signer: TraceSigner, trace: Trace)
    requires
        signer.well_formed(),
        signer.signed(trace),
        timestamp_representable(trace.ts.secs, trace.ts.nanos),
    ensures
        exists|kp: Seq<u8>| keypair_valid(kp) && keypair_consistent(kp) && signer.public_key_view() == public_of(kp)
            && trace.signature == Some(trace.signature->0) && trace.signature->0@ == base64_of(signature_of(kp,
            canonical(trace.plan_id@, trace.step_id@, timestamp_text(trace.ts.secs, trace.ts.nanos), trace.event_type@))),
{
    assert(keypair_valid(signer.keypair@) && keypair_consistent(signer.keypair@));
}

} // verus!
