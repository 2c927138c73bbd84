//! Verification of a presentation: which check comes next, and what the
//! checks add up to. The checks of the proofs themselves are made elsewhere
//! and come in as answers; the first failure decides.

use vstd::prelude::*;
use crate::credential::{issued, presented, ClaimView, CredentialType};
use crate::identity::{IdentityView, PublicIdentityView};
use crate::text::same_text;

verus! {

/// What a credential says of itself: its id, who issued it, whom it is about.
pub struct CredentialFacts {
    pub id: String,
    pub issuer: String,
    pub subject: String,
}

/// A `CredentialFacts` as plain values.
pub struct CredentialFactsView {
    pub id: Seq<char>,
    pub issuer: Seq<char>,
    pub subject: Seq<char>,
}

impl View for CredentialFacts {
    type V = CredentialFactsView;

    open spec fn view(&self) -> CredentialFactsView {
        CredentialFactsView { id: self.id@, issuer: self.issuer@, subject: self.subject@ }
    }
}

/// The views of a list of facts.
pub open spec fn facts_of(credentials: Seq<CredentialFacts>) -> Seq<CredentialFactsView> {
    credentials.map_values(|c: CredentialFacts| c@)
}

/// The DIDs that the verifier expects, resolved from the aliases it was
/// given: it trusts its own connections, not what the message says.
pub struct Expectation {
    pub issuer: String,
    pub subject: String,
}

/// An `Expectation` as plain values.
pub struct ExpectationView {
    pub issuer: Seq<char>,
    pub subject: Seq<char>,
}

impl View for Expectation {
    type V = ExpectationView;

    open spec fn view(&self) -> ExpectationView {
        ExpectationView { issuer: self.issuer@, subject: self.subject@ }
    }
}

/// The party of a credential that did not match.
#[derive(Clone, Copy, Debug, PartialEq, Eq, Structural)]
pub enum Party {
    Issuer,
    Subject,
}

/// How a verification ended.
#[derive(Debug)]
pub enum Verdict {
    /// Every proof held and every credential names the expected parties.
    Verified,
    /// The holder's proof over the presentation did not hold.
    PresentationProofInvalid,
    /// The issuer's proof over the credential at `index` did not hold.
    CredentialProofInvalid { index: usize, credential: String },
    /// The credential at `index` names another issuer or subject than expected.
    IdentityBindingMismatch { index: usize, credential: String, party: Party, expected: String, actual: String },
}

/// A `Verdict` as plain values.
pub enum VerdictView {
    Verified,
    PresentationProofInvalid,
    CredentialProofInvalid { index: usize, credential: Seq<char> },
    IdentityBindingMismatch {
        index: usize,
        credential: Seq<char>,
        party: Party,
        expected: Seq<char>,
        actual: Seq<char>,
    },
}

impl View for Verdict {
    type V = VerdictView;

    open spec fn view(&self) -> VerdictView {
        match self {
            Verdict::Verified => VerdictView::Verified,
            Verdict::PresentationProofInvalid => VerdictView::PresentationProofInvalid,
            Verdict::CredentialProofInvalid { index, credential } => VerdictView::CredentialProofInvalid {
                index: *index,
                credential: credential@,
            },
            Verdict::IdentityBindingMismatch {
                index,
                credential,
                party,
                expected,
                actual,
            } => VerdictView::IdentityBindingMismatch {
                index: *index,
                credential: credential@,
                party: *party,
                expected: expected@,
                actual: actual@,
            },
        }
    }
}

/// Where a verification stands.
pub enum Progress {
    /// The presentation's own proof is to be checked.
    AwaitingPresentation,
    /// The proof of the credential at `next` is to be checked; those before
    /// it passed.
    AwaitingCredential { credentials: Vec<CredentialFacts>, next: usize },
    /// The verification has ended.
    Finished(Verdict),
}

/// A `Progress` as plain values.
pub enum ProgressView {
    AwaitingPresentation,
    AwaitingCredential { credentials: Seq<CredentialFactsView>, next: usize },
    Finished(VerdictView),
}

impl View for Progress {
    type V = ProgressView;

    open spec fn view(&self) -> ProgressView {
        match self {
            Progress::AwaitingPresentation => ProgressView::AwaitingPresentation,
            Progress::AwaitingCredential { credentials, next } => ProgressView::AwaitingCredential {
                credentials: facts_of(credentials@),
                next: *next,
            },
            Progress::Finished(verdict) => ProgressView::Finished(verdict@),
        }
    }
}

/// The answer to a check.
pub enum Answer {
    /// Whether the presentation's proof held, and the credentials it embeds.
    Presentation { valid: bool, credentials: Vec<CredentialFacts> },
    /// Whether the proof of the credential that was asked for held.
    Credential { valid: bool },
    /// The proof of the credential that was asked for cannot be checked: the
    /// credential stands in a form that carries no proof of the kind the
    /// wallet checks. Such a credential does not pass.
    Unchecked,
}

/// An `Answer` as plain values.
pub enum AnswerView {
    Presentation { valid: bool, credentials: Seq<CredentialFactsView> },
    Credential { valid: bool },
    Unchecked,
}

impl View for Answer {
    type V = AnswerView;

    open spec fn view(&self) -> AnswerView {
        match self {
            Answer::Presentation { valid, credentials } => AnswerView::Presentation {
                valid: *valid,
                credentials: facts_of(credentials@),
            },
            Answer::Credential { valid } => AnswerView::Credential { valid: *valid },
            Answer::Unchecked => AnswerView::Unchecked,
        }
    }
}

/// The check to make next.
#[derive(Clone, Copy, Debug, PartialEq, Eq, Structural)]
pub enum Request {
    /// Check the presentation's proof against its holder's DID document.
    CheckPresentation,
    /// Check the proof of the credential at `index` against its issuer's DID
    /// document.
    CheckCredential { index: usize },
    /// Nothing is left to check.
    Stop,
}

/// The mismatch of one credential with what is expected, if there is one:
/// the issuer is held against the expected issuer first, then the subject.
pub open spec fn mismatch(expect: ExpectationView, facts: CredentialFactsView, index: usize) -> Option<VerdictView> {
    if facts.issuer != expect.issuer {
        Some(
            VerdictView::IdentityBindingMismatch {
                index,
                credential: facts.id,
                party: Party::Issuer,
                expected: expect.issuer,
                actual: facts.issuer,
            },
        )
    } else if facts.subject != expect.subject {
        Some(
            VerdictView::IdentityBindingMismatch {
                index,
                credential: facts.id,
                party: Party::Subject,
                expected: expect.subject,
                actual: facts.subject,
            },
        )
    } else {
        None
    }
}

/// What the check of the credential at `index` comes to: a verdict where it
/// fails or does not match, `None` where it passes.
pub open spec fn credential_verdict(
    expect: ExpectationView,
    facts: CredentialFactsView,
    index: usize,
    valid: bool,
) -> Option<VerdictView> {
    if !valid {
        Some(VerdictView::CredentialProofInvalid { index, credential: facts.id })
    } else {
        mismatch(expect, facts, index)
    }
}

/// The verdict over the credentials from `from` on, given whether the proof
/// of each holds: that of the first one that fails or does not match.
pub open spec fn judge_from(
    expect: ExpectationView,
    credentials: Seq<CredentialFactsView>,
    valid: Seq<bool>,
    from: int,
) -> VerdictView
    recommends
        0 <= from,
        valid.len() == credentials.len(),
    decreases credentials.len() - from,
{
    if from < 0 || from >= credentials.len() || credentials.len() > usize::MAX {
        VerdictView::Verified
    } else {
        match credential_verdict(expect, credentials[from], from as usize, valid[from]) {
            Some(verdict) => verdict,
            None => judge_from(expect, credentials, valid, from + 1),
        }
    }
}

/// The verdict over a presentation, given whether its own proof holds and
/// whether the proof of each embedded credential holds.
pub open spec fn judge(
    expect: ExpectationView,
    presentation_valid: bool,
    credentials: Seq<CredentialFactsView>,
    valid: Seq<bool>,
) -> VerdictView {
    if !presentation_valid {
        VerdictView::PresentationProofInvalid
    } else {
        judge_from(expect, credentials, valid, 0)
    }
}

/// The check that a state waits for.
pub open spec fn awaited(progress: ProgressView) -> Request {
    match progress {
        ProgressView::AwaitingPresentation => Request::CheckPresentation,
        ProgressView::AwaitingCredential { credentials, next } => Request::CheckCredential { index: next },
        ProgressView::Finished(_) => Request::Stop,
    }
}

/// The state in which the credentials from `next` on are still to be
/// checked: waiting for the one at `next`, or finished where none is left.
pub open spec fn advance_to(credentials: Seq<CredentialFactsView>, next: int) -> ProgressView {
    if 0 <= next < credentials.len() && next <= usize::MAX {
        ProgressView::AwaitingCredential { credentials, next: next as usize }
    } else {
        ProgressView::Finished(VerdictView::Verified)
    }
}

/// The state after the check of the credential at `next` was answered.
pub open spec fn after_credential(
    expect: ExpectationView,
    credentials: Seq<CredentialFactsView>,
    next: usize,
    valid: bool,
) -> ProgressView {
    if next < credentials.len() {
        match credential_verdict(expect, credentials[next as int], next, valid) {
            Some(verdict) => ProgressView::Finished(verdict),
            None => advance_to(credentials, next + 1),
        }
    } else {
        ProgressView::Finished(VerdictView::Verified)
    }
}

/// The state after an answer. A credential whose proof cannot be checked
/// counts as one whose proof does not hold. An answer that the state does
/// not wait for changes nothing.
pub open spec fn stepped(expect: ExpectationView, progress: ProgressView, answer: AnswerView) -> ProgressView {
    match (progress, answer) {
        (ProgressView::AwaitingPresentation, AnswerView::Presentation { valid, credentials }) => if !valid {
            ProgressView::Finished(VerdictView::PresentationProofInvalid)
        } else {
            advance_to(credentials, 0)
        },
        (ProgressView::AwaitingCredential { credentials, next }, AnswerView::Credential { valid }) => after_credential(
            expect,
            credentials,
            next,
            valid,
        ),
        (ProgressView::AwaitingCredential { credentials, next }, AnswerView::Unchecked) => after_credential(
            expect,
            credentials,
            next,
            false,
        ),
        _ => progress,
    }
}

fn text_of(s: &String) -> (copy: String)
    ensures
        copy@ == s@,
{
    s.clone()
}

/// Holds one credential against what is expected.
fn find_mismatch(expect: &Expectation, facts: &CredentialFacts, index: usize) -> (found: Option<Verdict>)
    ensures
        match found {
            Some(verdict) => mismatch(expect@, facts@, index) == Some(verdict@),
            None => mismatch(expect@, facts@, index) is None,
        },
{
    if !same_text(facts.issuer.as_str(), expect.issuer.as_str()) {
        Some(
            Verdict::IdentityBindingMismatch {
                index,
                credential: text_of(&facts.id),
                party: Party::Issuer,
                expected: text_of(&expect.issuer),
                actual: text_of(&facts.issuer),
            },
        )
    } else if !same_text(facts.subject.as_str(), expect.subject.as_str()) {
        Some(
            Verdict::IdentityBindingMismatch {
                index,
                credential: text_of(&facts.id),
                party: Party::Subject,
                expected: text_of(&expect.subject),
                actual: text_of(&facts.subject),
            },
        )
    } else {
        None
    }
}

fn advance(credentials: Vec<CredentialFacts>, next: usize) -> (progress: Progress)
    ensures
        progress@ == advance_to(facts_of(credentials@), next as int),
{
    if next < credentials.len() {
        Progress::AwaitingCredential { credentials, next }
    } else {
        Progress::Finished(Verdict::Verified)
    }
}

/// Takes the answer to the check of the credential at `next`.
fn answer_credential(expect: &Expectation, credentials: Vec<CredentialFacts>, next: usize, valid: bool) -> (progress:
    Progress)
    ensures
        progress@ == after_credential(expect@, facts_of(credentials@), next, valid),
{
    if next < credentials.len() {
        if !valid {
            Progress::Finished(
                Verdict::CredentialProofInvalid { index: next, credential: text_of(&credentials[next].id) },
            )
        } else {
            match find_mismatch(expect, &credentials[next], next) {
                Some(verdict) => Progress::Finished(verdict),
                None => advance(credentials, next + 1),
            }
        }
    } else {
        Progress::Finished(Verdict::Verified)
    }
}

/// Where a verification begins: the presentation's proof comes first.
pub fn begin() -> (start: (Progress, Request))
    ensures
        start.0@ == ProgressView::AwaitingPresentation,
        start.1 == Request::CheckPresentation,
{
    (Progress::AwaitingPresentation, Request::CheckPresentation)
}

/// Takes the answer to the check that was asked for, and says where the
/// verification stands now and which check comes next.
pub fn step(expect: &Expectation, progress: Progress, answer: Answer) -> (next: (Progress, Request))
    ensures
        next.0@ == stepped(expect@, progress@, answer@),
        next.1 == awaited(next.0@),
{
    let after = match progress {
        Progress::AwaitingPresentation => match answer {
            Answer::Presentation { valid, credentials } => {
                if !valid {
                    Progress::Finished(Verdict::PresentationProofInvalid)
                } else {
                    advance(credentials, 0)
                }
            },
            Answer::Credential { valid } => Progress::AwaitingPresentation,
            Answer::Unchecked => Progress::AwaitingPresentation,
        },
        Progress::AwaitingCredential { credentials, next } => match answer {
            Answer::Credential { valid } => answer_credential(expect, credentials, next, valid),
            Answer::Unchecked => answer_credential(expect, credentials, next, false),
            Answer::Presentation { valid, credentials: other } => Progress::AwaitingCredential { credentials, next },
        },
        Progress::Finished(verdict) => Progress::Finished(verdict),
    };
    let request = match &after {
        Progress::AwaitingPresentation => Request::CheckPresentation,
        Progress::AwaitingCredential { credentials, next } => Request::CheckCredential { index: *next },
        Progress::Finished(_) => Request::Stop,
    };
    (after, request)
}

/// The state after the credentials from `from` on were answered one by one,
/// as long as the state waited for an answer.
pub open spec fn driven(
    expect: ExpectationView,
    credentials: Seq<CredentialFactsView>,
    valid: Seq<bool>,
    from: int,
) -> ProgressView
    decreases credentials.len() - from,
{
    if 0 <= from < credentials.len() && credentials.len() <= usize::MAX {
        match stepped(
            expect,
            advance_to(credentials, from),
            AnswerView::Credential { valid: valid[from] },
        ) {
            ProgressView::Finished(verdict) => ProgressView::Finished(verdict),
            _ => driven(expect, credentials, valid, from + 1),
        }
    } else {
        advance_to(credentials, from)
    }
}

/// Answering the checks one by one ends in the verdict of `judge_from`.
pub proof fn lemma_driven_is_judged(
    expect: ExpectationView,
    credentials: Seq<CredentialFactsView>,
    valid: Seq<bool>,
    from: int,
)
    requires
        0 <= from,
        valid.len() == credentials.len(),
        credentials.len() <= usize::MAX,
    ensures
        driven(expect, credentials, valid, from) == ProgressView::Finished(
            judge_from(expect, credentials, valid, from),
        ),
    decreases credentials.len() - from,
{
    if from < credentials.len() {
        lemma_driven_is_judged(expect, credentials, valid, from + 1);
    }
}

/// The whole verification, answered check by check, ends in the verdict of
/// `judge`: the first failure decides, and nothing is asked after it.
pub proof fn lemma_steps_reach_verdict(
    expect: ExpectationView,
    presentation_valid: bool,
    credentials: Seq<CredentialFactsView>,
    valid: Seq<bool>,
)
    requires
        valid.len() == credentials.len(),
        credentials.len() <= usize::MAX,
    ensures
        ({
            let first = stepped(
                expect,
                ProgressView::AwaitingPresentation,
                AnswerView::Presentation { valid: presentation_valid, credentials },
            );
            let last = if presentation_valid {
                driven(expect, credentials, valid, 0)
            } else {
                first
            };
            &&& presentation_valid ==> first == advance_to(credentials, 0)
            &&& last == ProgressView::Finished(judge(expect, presentation_valid, credentials, valid))
        }),
{
    lemma_driven_is_judged(expect, credentials, valid, 0);
}

/// The credential at `i` passes: its proof holds and it names the expected
/// issuer and subject.
pub open spec fn passes(
    expect: ExpectationView,
    credentials: Seq<CredentialFactsView>,
    valid: Seq<bool>,
    i: int,
) -> bool {
    &&& valid[i]
    &&& credentials[i].issuer == expect.issuer
    &&& credentials[i].subject == expect.subject
}

/// A presentation passes exactly if its own proof holds and every credential
/// passes.
pub proof fn lemma_verified_iff(
    expect: ExpectationView,
    presentation_valid: bool,
    credentials: Seq<CredentialFactsView>,
    valid: Seq<bool>,
)
    requires
        valid.len() == credentials.len(),
        credentials.len() <= usize::MAX,
    ensures
        judge(expect, presentation_valid, credentials, valid) == VerdictView::Verified <==> (presentation_valid
            && forall|i: int| 0 <= i < credentials.len() ==> passes(expect, credentials, valid, i)),
{
    lemma_judge_from_verified(expect, credentials, valid, 0);
}

proof fn lemma_judge_from_verified(
    expect: ExpectationView,
    credentials: Seq<CredentialFactsView>,
    valid: Seq<bool>,
    from: int,
)
    requires
        0 <= from,
        valid.len() == credentials.len(),
        credentials.len() <= usize::MAX,
    ensures
        judge_from(expect, credentials, valid, from) == VerdictView::Verified <==> (forall|i: int|
            from <= i < credentials.len() ==> passes(expect, credentials, valid, i)),
    decreases credentials.len() - from,
{
    if from < credentials.len() {
        lemma_judge_from_verified(expect, credentials, valid, from + 1);
        if judge_from(expect, credentials, valid, from) == VerdictView::Verified {
            assert(passes(expect, credentials, valid, from));
            assert forall|i: int| from <= i < credentials.len() implies passes(expect, credentials, valid, i) by {
                if i > from {
                    assert(from + 1 <= i);
                }
            }
        }
        if forall|i: int| from <= i < credentials.len() ==> passes(expect, credentials, valid, i) {
            assert(passes(expect, credentials, valid, from));
            assert forall|i: int| from + 1 <= i < credentials.len() implies passes(
                expect,
                credentials,
                valid,
                i,
            ) by {
                assert(from <= i);
            }
        }
    }
}

/// What a credential says of itself that was drawn up as `claim` and given
/// the id `id`.
pub open spec fn facts_of_claim(id: Seq<char>, claim: ClaimView) -> CredentialFactsView {
    CredentialFactsView { id, issuer: claim.issuer, subject: claim.subject }
}

/// A credential that an issuer drew up about a subject, presented by that
/// subject, is verified where the verifier expects that issuer and that
/// subject and every proof holds. Where the verifier expects another issuer,
/// the verification ends in a binding mismatch that names both issuers.
pub proof fn lemma_issued_credential_verifies(
    credential_type: CredentialType,
    issuer: IdentityView,
    subject: IdentityView,
    issuance_date: Seq<char>,
    id: Seq<char>,
    credential_text: Seq<char>,
    other_issuer: Seq<char>,
)
    requires
        issued(
            credential_type,
            issuer,
            PublicIdentityView { did: subject.did, public_key: subject.public_key },
            issuance_date,
        ) is Ok,
        presented(credential_text, subject) is Ok,
        other_issuer != issuer.did,
    ensures
        ({
            let request = issued(
                credential_type,
                issuer,
                PublicIdentityView { did: subject.did, public_key: subject.public_key },
                issuance_date,
            )->Ok_0;
            let presentation = presented(credential_text, subject)->Ok_0;
            let found = seq![facts_of_claim(id, request.claim)];
            &&& presentation.holder == subject.did
            &&& presentation.credential == credential_text
            &&& judge(ExpectationView { issuer: issuer.did, subject: subject.did }, true, found, seq![true])
                == VerdictView::Verified
            &&& judge(ExpectationView { issuer: other_issuer, subject: subject.did }, true, found, seq![true])
                == (VerdictView::IdentityBindingMismatch {
                index: 0,
                credential: id,
                party: Party::Issuer,
                expected: other_issuer,
                actual: issuer.did,
            })
        }),
{
    let request = issued(
        credential_type,
        issuer,
        PublicIdentityView { did: subject.did, public_key: subject.public_key },
        issuance_date,
    )->Ok_0;
    let found = seq![facts_of_claim(id, request.claim)];
    let here = ExpectationView { issuer: issuer.did, subject: subject.did };
    assert(judge_from(here, found, seq![true], 1) == VerdictView::Verified);
    assert(credential_verdict(here, found[0], 0, true) is None);
}

/// A credential whose proof cannot be checked ends the verification as one
/// whose proof does not hold.
pub proof fn lemma_unchecked_does_not_pass(
    expect: ExpectationView,
    credentials: Seq<CredentialFactsView>,
    next: usize,
)
    requires
        next < credentials.len(),
    ensures
        stepped(expect, ProgressView::AwaitingCredential { credentials, next }, AnswerView::Unchecked)
            == ProgressView::Finished(
            VerdictView::CredentialProofInvalid { index: next, credential: credentials[next as int].id },
        ),
{
}

} // verus!
