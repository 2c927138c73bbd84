//! Credentials and presentations before they are signed: who claims what of
//! whom, and under which verification method the proof is to be made.

use vstd::prelude::*;
use crate::errors::WalletError;
use crate::identity::{Identity, IdentityView, PublicIdentity, PublicIdentityView};
use crate::json::{json_string, write_json_string};
use crate::keys::{did_document, texts_of};
use crate::text::same_text;

verus! {

/// The kinds of credential that the wallet issues.
#[derive(Clone, Copy, Debug, PartialEq, Eq, Structural)]
pub enum CredentialType {
    Passport,
    DriversLicense,
    TrafficAuthority,
    LawEnforcer,
}

impl CredentialType {
    /// The name under which the kind stands in a credential's type list.
    pub open spec fn name_of(self) -> Seq<char> {
        match self {
            CredentialType::Passport => "Passport"@,
            CredentialType::DriversLicense => "DriversLicense"@,
            CredentialType::TrafficAuthority => "TrafficAuthority"@,
            CredentialType::LawEnforcer => "LawEnforcer"@,
        }
    }

    /// The kind that a name stands for.
    pub open spec fn named(name: Seq<char>) -> Option<CredentialType> {
        if name == "Passport"@ {
            Some(CredentialType::Passport)
        } else if name == "DriversLicense"@ {
            Some(CredentialType::DriversLicense)
        } else if name == "TrafficAuthority"@ {
            Some(CredentialType::TrafficAuthority)
        } else if name == "LawEnforcer"@ {
            Some(CredentialType::LawEnforcer)
        } else {
            None
        }
    }

    /// The name of the kind.
    pub fn name(&self) -> (name: &'static str)
        ensures
            name@ == self.name_of(),
    {
        match self {
            CredentialType::Passport => "Passport",
            CredentialType::DriversLicense => "DriversLicense",
            CredentialType::TrafficAuthority => "TrafficAuthority",
            CredentialType::LawEnforcer => "LawEnforcer",
        }
    }

    /// The kind with the name `name`, if there is one.
    pub fn parse(name: &str) -> (kind: Option<CredentialType>)
        ensures
            kind == CredentialType::named(name@),
    {
        if same_text(name, "Passport") {
            Some(CredentialType::Passport)
        } else if same_text(name, "DriversLicense") {
            Some(CredentialType::DriversLicense)
        } else if same_text(name, "TrafficAuthority") {
            Some(CredentialType::TrafficAuthority)
        } else if same_text(name, "LawEnforcer") {
            Some(CredentialType::LawEnforcer)
        } else {
            None
        }
    }

    /// Every kind is found again by its name.
    pub proof fn lemma_named(self)
        ensures
            CredentialType::named(self.name_of()) == Some(self),
    {
        reveal_strlit("Passport");
        reveal_strlit("DriversLicense");
        reveal_strlit("TrafficAuthority");
        reveal_strlit("LawEnforcer");
        assert("Passport"@.len() == 8);
        assert("DriversLicense"@.len() == 14);
        assert("TrafficAuthority"@.len() == 16);
        assert("LawEnforcer"@.len() == 11);
    }
}

/// What a credential says before it is signed.
pub struct Claim {
    pub credential_type: CredentialType,
    pub issuer: String,
    pub subject: String,
    pub issuance_date: String,
}

/// A `Claim` as plain values.
pub struct ClaimView {
    pub credential_type: CredentialType,
    pub issuer: Seq<char>,
    pub subject: Seq<char>,
    pub issuance_date: Seq<char>,
}

impl View for Claim {
    type V = ClaimView;

    open spec fn view(&self) -> ClaimView {
        ClaimView {
            credential_type: self.credential_type,
            issuer: self.issuer@,
            subject: self.subject@,
            issuance_date: self.issuance_date@,
        }
    }
}

/// The context that every credential and presentation names first.
pub const CREDENTIALS_CONTEXT: &'static str = "https://www.w3.org/2018/credentials/v1";

/// The type that every credential has.
pub const CREDENTIAL_TYPE: &'static str = "VerifiableCredential";

/// The type that every presentation has.
pub const PRESENTATION_TYPE: &'static str = "VerifiablePresentation";

/// The unsigned credential that states a claim, as a JSON document: the
/// context, the two types, the issuer, the issuance date and the subject.
pub open spec fn credential_document(claim: ClaimView) -> Seq<char> {
    "{\"@context\":["@ + json_string(CREDENTIALS_CONTEXT@) + "],\"type\":["@ + json_string(CREDENTIAL_TYPE@) + ","@
        + json_string(claim.credential_type.name_of()) + "],\"issuer\":"@ + json_string(claim.issuer)
        + ",\"issuanceDate\":"@ + json_string(claim.issuance_date) + ",\"credentialSubject\":{\"id\":"@ + json_string(
        claim.subject,
    ) + "}}"@
}

impl Claim {
    /// The unsigned credential that states the claim, as a JSON document.
    pub fn document(&self) -> (text: String)
        ensures
            text@ == credential_document(self@),
    {
        let mut text = "{\"@context\":[".to_owned();
        text.append(write_json_string(CREDENTIALS_CONTEXT).as_str());
        text.append("],\"type\":[");
        text.append(write_json_string(CREDENTIAL_TYPE).as_str());
        text.append(",");
        text.append(write_json_string(self.credential_type.name()).as_str());
        text.append("],\"issuer\":");
        text.append(write_json_string(self.issuer.as_str()).as_str());
        text.append(",\"issuanceDate\":");
        text.append(write_json_string(self.issuance_date.as_str()).as_str());
        text.append(",\"credentialSubject\":{\"id\":");
        text.append(write_json_string(self.subject.as_str()).as_str());
        text.append("}}");
        assert(text@ =~= credential_document(self@));
        text
    }
}

/// The date and time that stand for a number of seconds since 1970, as
/// text in the form in which a credential's issuance date is written; `None`
/// for a time beyond the calendar's reach.
pub uninterp spec fn date_of_time(seconds: u64) -> Option<Seq<char>>;

/// Makes a `chrono::DateTime<Utc>` of the seconds with
/// `DateTime::from_timestamp` and has `serde_json::to_value` write it as
/// text, as the credential library writes an issuance date. chrono hands
/// back `None` for seconds beyond its calendar; no clock is read.
#[verifier::external_body]
pub(crate) fn date_text(seconds: u64) -> (text: Option<String>)
    ensures
        texts_of(text) == date_of_time(seconds),
{
    let date = match i64::try_from(seconds) {
        Ok(secs) => chrono::DateTime::<chrono::Utc>::from_timestamp(secs, 0),
        Err(_) => None,
    };
    match date.map(serde_json::to_value) {
        Some(Ok(value)) => match value.as_str() {
            Some(text) => Some(text.to_string()),
            None => None,
        },
        Some(Err(_)) => None,
        None => None,
    }
}

/// What a proof is made for.
#[derive(Clone, Copy, Debug, PartialEq, Eq, Structural)]
pub enum ProofPurpose {
    /// To assert a claim: the purpose of every proof the wallet asks for.
    AssertionMethod,
}

/// A claim, the verification method under which its issuer signs it, and
/// the purpose of the proof.
pub struct CredentialRequest {
    pub claim: Claim,
    pub verification_method: String,
    pub proof_purpose: ProofPurpose,
}

/// A `CredentialRequest` as plain values.
pub struct CredentialRequestView {
    pub claim: ClaimView,
    pub verification_method: Seq<char>,
    pub proof_purpose: ProofPurpose,
}

impl View for CredentialRequest {
    type V = CredentialRequestView;

    open spec fn view(&self) -> CredentialRequestView {
        CredentialRequestView {
            claim: self.claim@,
            verification_method: self.verification_method@,
            proof_purpose: self.proof_purpose,
        }
    }
}

/// The first assertion method in the DID document of a key, if it has one.
pub open spec fn assertion_method_of(public_key: Seq<u8>) -> Option<Seq<char>> {
    match did_document(public_key).assertion_method {
        Some(methods) => if methods.len() > 0 {
            Some(methods[0])
        } else {
            None
        },
        None => None,
    }
}

/// What issuing gives: the claim of `issuer` about `subject`, to be signed
/// under the issuer's first assertion method.
pub open spec fn issued(
    credential_type: CredentialType,
    issuer: IdentityView,
    subject: PublicIdentityView,
    issuance_date: Seq<char>,
) -> Result<CredentialRequestView, WalletError> {
    match assertion_method_of(issuer.public_key) {
        Some(verification_method) => Ok(
            CredentialRequestView {
                claim: ClaimView { credential_type, issuer: issuer.did, subject: subject.did, issuance_date },
                verification_method,
                proof_purpose: ProofPurpose::AssertionMethod,
            },
        ),
        None => Err(WalletError::NoAssertionMethod),
    }
}

/// The first assertion method of an identity.
pub fn assertion_method(identity: &Identity) -> (method: Result<String, WalletError>)
    requires
        identity.wf(),
    ensures
        match method {
            Ok(m) => assertion_method_of(identity@.public_key) == Some(m@),
            Err(e) => e == WalletError::NoAssertionMethod && assertion_method_of(identity@.public_key) is None,
        },
{
    let document = identity.document();
    match document.assertion_method {
        Some(methods) => {
            if methods.len() > 0 {
                Ok(methods[0].clone())
            } else {
                Err(WalletError::NoAssertionMethod)
            }
        },
        None => Err(WalletError::NoAssertionMethod),
    }
}

/// The view of a request or an error.
pub open spec fn request_outcome(outcome: Result<CredentialRequest, WalletError>) -> Result<CredentialRequestView, WalletError> {
    match outcome {
        Ok(request) => Ok(request@),
        Err(e) => Err(e),
    }
}

/// Draws up a credential of the given kind from `issuer` about `subject`.
/// The truth of the claim is the issuer's affair: nothing but its form is
/// looked at.
pub fn issue(
    credential_type: CredentialType,
    issuer: &Identity,
    subject: &PublicIdentity,
    issuance_date: &str,
) -> (outcome: Result<CredentialRequest, WalletError>)
    requires
        issuer.wf(),
    ensures
        request_outcome(outcome) == issued(credential_type, issuer@, subject@, issuance_date@),
{
    match assertion_method(issuer) {
        Ok(verification_method) => Ok(
            CredentialRequest {
                claim: Claim {
                    credential_type,
                    issuer: issuer.did().to_owned(),
                    subject: subject.did().to_owned(),
                    issuance_date: issuance_date.to_owned(),
                },
                verification_method,
                proof_purpose: ProofPurpose::AssertionMethod,
            },
        ),
        Err(e) => Err(e),
    }
}

/// A presentation before it is signed: the holder, and the credential as the
/// holder received it.
pub struct PresentationRequest {
    pub holder: String,
    pub credential: String,
    pub verification_method: String,
    pub proof_purpose: ProofPurpose,
}

/// A `PresentationRequest` as plain values.
pub struct PresentationRequestView {
    pub holder: Seq<char>,
    pub credential: Seq<char>,
    pub verification_method: Seq<char>,
    pub proof_purpose: ProofPurpose,
}

impl View for PresentationRequest {
    type V = PresentationRequestView;

    open spec fn view(&self) -> PresentationRequestView {
        PresentationRequestView {
            holder: self.holder@,
            credential: self.credential@,
            verification_method: self.verification_method@,
            proof_purpose: self.proof_purpose,
        }
    }
}

/// The unsigned presentation of a credential, as a JSON document: the
/// context, the type, the holder, and the credential as it stands.
pub open spec fn presentation_document(holder: Seq<char>, credential: Seq<char>) -> Seq<char> {
    "{\"@context\":["@ + json_string(CREDENTIALS_CONTEXT@) + "],\"type\":["@ + json_string(PRESENTATION_TYPE@)
        + "],\"holder\":"@ + json_string(holder) + ",\"verifiableCredential\":"@ + credential + "}"@
}

impl PresentationRequest {
    /// The unsigned presentation, as a JSON document.
    pub fn document(&self) -> (text: String)
        ensures
            text@ == presentation_document(self@.holder, self@.credential),
    {
        let mut text = "{\"@context\":[".to_owned();
        text.append(write_json_string(CREDENTIALS_CONTEXT).as_str());
        text.append("],\"type\":[");
        text.append(write_json_string(PRESENTATION_TYPE).as_str());
        text.append("],\"holder\":");
        text.append(write_json_string(self.holder.as_str()).as_str());
        text.append(",\"verifiableCredential\":");
        text.append(self.credential.as_str());
        text.append("}");
        assert(text@ =~= presentation_document(self@.holder, self@.credential));
        text
    }
}

/// What presenting gives: the credential under the holder's own DID, to be
/// signed under the holder's first assertion method, to assert it.
pub open spec fn presented(credential: Seq<char>, holder: IdentityView) -> Result<PresentationRequestView, WalletError> {
    match assertion_method_of(holder.public_key) {
        Some(verification_method) => Ok(
            PresentationRequestView {
                holder: holder.did,
                credential,
                verification_method,
                proof_purpose: ProofPurpose::AssertionMethod,
            },
        ),
        None => Err(WalletError::NoAssertionMethod),
    }
}

/// The view of a request or an error.
pub open spec fn presentation_outcome(outcome: Result<PresentationRequest, WalletError>) -> Result<PresentationRequestView, WalletError> {
    match outcome {
        Ok(request) => Ok(request@),
        Err(e) => Err(e),
    }
}

/// Draws up a presentation of `credential` by `holder`. The holder is whoever
/// presents, which need not be the subject of the credential.
pub fn present(credential: &str, holder: &Identity) -> (outcome: Result<PresentationRequest, WalletError>)
    requires
        holder.wf(),
    ensures
        presentation_outcome(outcome) == presented(credential@, holder@),
{
    match assertion_method(holder) {
        Ok(verification_method) => Ok(
            PresentationRequest {
                holder: holder.did().to_owned(),
                credential: credential.to_owned(),
                verification_method,
                proof_purpose: ProofPurpose::AssertionMethod,
            },
        ),
        Err(e) => Err(e),
    }
}

} // verus!
