//! The command line: which words name which command, and what running a
//! command does to the store.

use vstd::prelude::*;
use crate::credential::{
    CredentialRequest, CredentialRequestView, CredentialType, PresentationRequest, PresentationRequestView,
};
use crate::envelope::{current_time, DEFAULT_TTL};
use crate::errors::WalletError;
use crate::keys::did_document_text;
use crate::identity::IdentityView;
use crate::keystore::{ensure_identity, identity_outcome, installed, loaded, self_did_document_text};
use crate::paths::{id_of, in_dir, parse_id, DIDS_DIR, NAMES_DIR};
use crate::registry::{connect, resolve_did, resolved_did};
use crate::store::{connected, shelf_of, Shelf, WalletStore, WalletView};
use crate::text::{ascending, in_order, join, same_text, texts_in};
use crate::wallet::{
    begin_verification, held, hold, issue_at, issued_at, kept, listing, present_from, presented_from, read,
    read_as, recall, recalled_as, sent_and_kept, verification_of, Verification, VerificationView, Written,
};

verus! {

/// What the wallet can be asked to do.
pub enum Command {
    Help,
    /// Make sure that the wallet has an identity, and say its DID.
    Init,
    /// Show the wallet's DID document.
    Doc,
    /// Connect an alias and a DID.
    Connect { didname: String, did: String },
    /// List the aliases.
    Dids,
    /// Say the DID of an alias.
    Did { didname: String },
    /// Seal a message to a peer.
    Write { didname: String, message: String },
    /// Open an envelope.
    Read { dcem: String },
    /// Keep an envelope as it is, on a shelf.
    Hold { shelf: Shelf, dcem: String },
    /// List the kept messages.
    Messages,
    /// Show a kept message.
    Message { message_id: String },
    /// Draw up a credential about a peer.
    Issue { credential_type: CredentialType, didname: String },
    /// Draw up the presentation of a credential for a verifier.
    Present { didname: String, dcem: String },
    /// Verify a presentation.
    Verify { issuer_didname: String, subject_didname: String, dcem: String },
    /// List the held credentials.
    Credentials,
    /// Show a held credential.
    Credential { credential_id: String },
    /// List the kept presentations.
    Presentations,
    /// Show a kept presentation.
    Presentation { presentation_id: String },
}

/// A `Command` as plain values.
pub enum CommandView {
    Help,
    Init,
    Doc,
    Connect { didname: Seq<char>, did: Seq<char> },
    Dids,
    Did { didname: Seq<char> },
    Write { didname: Seq<char>, message: Seq<char> },
    Read { dcem: Seq<char> },
    Hold { shelf: Shelf, dcem: Seq<char> },
    Messages,
    Message { message_id: Seq<char> },
    Issue { credential_type: CredentialType, didname: Seq<char> },
    Present { didname: Seq<char>, dcem: Seq<char> },
    Verify { issuer_didname: Seq<char>, subject_didname: Seq<char>, dcem: Seq<char> },
    Credentials,
    Credential { credential_id: Seq<char> },
    Presentations,
    Presentation { presentation_id: Seq<char> },
}

impl View for Command {
    type V = CommandView;

    open spec fn view(&self) -> CommandView {
        match self {
            Command::Help => CommandView::Help,
            Command::Init => CommandView::Init,
            Command::Doc => CommandView::Doc,
            Command::Connect { didname, did } => CommandView::Connect { didname: didname@, did: did@ },
            Command::Dids => CommandView::Dids,
            Command::Did { didname } => CommandView::Did { didname: didname@ },
            Command::Write { didname, message } => CommandView::Write { didname: didname@, message: message@ },
            Command::Read { dcem } => CommandView::Read { dcem: dcem@ },
            Command::Hold { shelf, dcem } => CommandView::Hold { shelf: *shelf, dcem: dcem@ },
            Command::Messages => CommandView::Messages,
            Command::Message { message_id } => CommandView::Message { message_id: message_id@ },
            Command::Issue { credential_type, didname } => CommandView::Issue {
                credential_type: *credential_type,
                didname: didname@,
            },
            Command::Present { didname, dcem } => CommandView::Present { didname: didname@, dcem: dcem@ },
            Command::Verify { issuer_didname, subject_didname, dcem } => CommandView::Verify {
                issuer_didname: issuer_didname@,
                subject_didname: subject_didname@,
                dcem: dcem@,
            },
            Command::Credentials => CommandView::Credentials,
            Command::Credential { credential_id } => CommandView::Credential { credential_id: credential_id@ },
            Command::Presentations => CommandView::Presentations,
            Command::Presentation { presentation_id } => CommandView::Presentation {
                presentation_id: presentation_id@,
            },
        }
    }
}

/// The words of a command line.
pub open spec fn words_of(args: Seq<String>) -> Seq<Seq<char>> {
    args.map_values(|s: String| s@)
}

/// How many words a command takes after its name; `None` for a word that
/// names no command.
pub open spec fn arity(name: Seq<char>) -> Option<nat> {
    if name == "help"@ || name == "init"@ || name == "doc"@ || name == "dids"@ || name == "messages"@ || name
        == "credentials"@ || name == "presentations"@ {
        Some(0)
    } else if name == "did"@ || name == "read"@ || name == "hold"@ || name == "message"@ || name == "credential"@
        || name == "presentation"@ {
        Some(1)
    } else if name == "connect"@ || name == "write"@ || name == "issue"@ || name == "present"@ {
        Some(2)
    } else if name == "verify"@ {
        Some(3)
    } else {
        None
    }
}

/// The command that a name and the words after it stand for, where the
/// words are as many as the command takes.
pub open spec fn command_of(name: Seq<char>, a: Seq<char>, b: Seq<char>, c: Seq<char>) -> CommandView {
    if name == "init"@ {
        CommandView::Init
    } else if name == "doc"@ {
        CommandView::Doc
    } else if name == "dids"@ {
        CommandView::Dids
    } else if name == "messages"@ {
        CommandView::Messages
    } else if name == "credentials"@ {
        CommandView::Credentials
    } else if name == "presentations"@ {
        CommandView::Presentations
    } else if name == "did"@ {
        CommandView::Did { didname: a }
    } else if name == "read"@ {
        CommandView::Read { dcem: a }
    } else if name == "hold"@ {
        CommandView::Hold { shelf: Shelf::Messages, dcem: a }
    } else if name == "message"@ {
        CommandView::Message { message_id: a }
    } else if name == "credential"@ {
        CommandView::Credential { credential_id: a }
    } else if name == "presentation"@ {
        CommandView::Presentation { presentation_id: a }
    } else if name == "connect"@ {
        CommandView::Connect { didname: a, did: b }
    } else if name == "write"@ {
        CommandView::Write { didname: a, message: b }
    } else if name == "issue"@ {
        match CredentialType::named(a) {
            Some(credential_type) => CommandView::Issue { credential_type, didname: b },
            None => CommandView::Help,
        }
    } else if name == "present"@ {
        CommandView::Present { didname: a, dcem: b }
    } else if name == "verify"@ {
        CommandView::Verify { issuer_didname: a, subject_didname: b, dcem: c }
    } else {
        CommandView::Help
    }
}

/// The word at a place of the command line, or the empty word.
pub open spec fn word_at(words: Seq<Seq<char>>, i: int) -> Seq<char> {
    if 0 <= i < words.len() {
        words[i]
    } else {
        Seq::empty()
    }
}

/// The shelf that a word names.
pub open spec fn shelf_named(word: Seq<char>) -> Option<Shelf> {
    if word == "message"@ {
        Some(Shelf::Messages)
    } else if word == "credential"@ {
        Some(Shelf::Credentials)
    } else if word == "presentation"@ {
        Some(Shelf::Presentations)
    } else {
        None
    }
}

/// Whether the command line is `hold` with the name of a shelf after it.
pub open spec fn holds_on_shelf(words: Seq<Seq<char>>) -> bool {
    words.len() >= 3 && words[1] == "hold"@ && shelf_named(words[2]) is Some
}

/// The command that a command line stands for. The first word is the
/// program, the second names the command, and the words the command takes
/// follow; words beyond those are not looked at. A line without a command,
/// with a word that names none, or with too few words asks for help. `hold`
/// keeps with the messages, unless the name of a shelf and a further word
/// follow it.
pub open spec fn parsed(words: Seq<Seq<char>>) -> CommandView {
    if words.len() < 2 {
        CommandView::Help
    } else if holds_on_shelf(words) && words.len() >= 4 {
        CommandView::Hold { shelf: shelf_named(words[2])->0, dcem: words[3] }
    } else {
        match arity(words[1]) {
            None => CommandView::Help,
            Some(n) => if words.len() < 2 + n {
                CommandView::Help
            } else {
                command_of(words[1], word_at(words, 2), word_at(words, 3), word_at(words, 4))
            },
        }
    }
}

/// Whether a command line lacks nothing but its last word: then that word
/// may come from elsewhere, as from a pipe.
pub open spec fn lacks_last_word(words: Seq<Seq<char>>) -> bool {
    words.len() >= 2 && (match arity(words[1]) {
        Some(n) => n >= 1 && words.len() == 1 + n,
        None => false,
    } || (holds_on_shelf(words) && words.len() == 3))
}

/// What the wallet was asked to do.
pub struct Config {
    cmd: Command,
}

impl View for Config {
    type V = CommandView;

    closed spec fn view(&self) -> CommandView {
        self.cmd@
    }
}

fn count_of(name: &str) -> (n: Option<usize>)
    ensures
        match n {
            Some(k) => arity(name@) == Some(k as nat) && k <= 3,
            None => arity(name@) is None,
        },
{
    if same_text(name, "help") || same_text(name, "init") || same_text(name, "doc") || same_text(name, "dids")
        || same_text(name, "messages") || same_text(name, "credentials") || same_text(name, "presentations") {
        Some(0)
    } else if same_text(name, "did") || same_text(name, "read") || same_text(name, "hold") || same_text(
        name,
        "message",
    ) || same_text(name, "credential") || same_text(name, "presentation") {
        Some(1)
    } else if same_text(name, "connect") || same_text(name, "write") || same_text(name, "issue") || same_text(
        name,
        "present",
    ) {
        Some(2)
    } else if same_text(name, "verify") {
        Some(3)
    } else {
        None
    }
}

fn build(name: &str, a: &str, b: &str, c: &str) -> (cmd: Command)
    ensures
        cmd@ == command_of(name@, a@, b@, c@),
{
    if same_text(name, "init") {
        Command::Init
    } else if same_text(name, "doc") {
        Command::Doc
    } else if same_text(name, "dids") {
        Command::Dids
    } else if same_text(name, "messages") {
        Command::Messages
    } else if same_text(name, "credentials") {
        Command::Credentials
    } else if same_text(name, "presentations") {
        Command::Presentations
    } else if same_text(name, "did") {
        Command::Did { didname: a.to_owned() }
    } else if same_text(name, "read") {
        Command::Read { dcem: a.to_owned() }
    } else if same_text(name, "hold") {
        Command::Hold { shelf: Shelf::Messages, dcem: a.to_owned() }
    } else if same_text(name, "message") {
        Command::Message { message_id: a.to_owned() }
    } else if same_text(name, "credential") {
        Command::Credential { credential_id: a.to_owned() }
    } else if same_text(name, "presentation") {
        Command::Presentation { presentation_id: a.to_owned() }
    } else if same_text(name, "connect") {
        Command::Connect { didname: a.to_owned(), did: b.to_owned() }
    } else if same_text(name, "write") {
        Command::Write { didname: a.to_owned(), message: b.to_owned() }
    } else if same_text(name, "issue") {
        match CredentialType::parse(a) {
            Some(credential_type) => Command::Issue { credential_type, didname: b.to_owned() },
            None => Command::Help,
        }
    } else if same_text(name, "present") {
        Command::Present { didname: a.to_owned(), dcem: b.to_owned() }
    } else if same_text(name, "verify") {
        Command::Verify { issuer_didname: a.to_owned(), subject_didname: b.to_owned(), dcem: c.to_owned() }
    } else {
        Command::Help
    }
}

fn word<'a>(args: &'a [String], i: usize) -> (w: &'a str)
    ensures
        w@ == word_at(words_of(args@), i as int),
{
    if i < args.len() {
        args[i].as_str()
    } else {
        let empty: &'static str = "";
        proof {
            reveal_strlit("");
            assert(empty@ =~= Seq::<char>::empty());
        }
        empty
    }
}

fn shelf_of_word(word: &str) -> (shelf: Option<Shelf>)
    ensures
        shelf == shelf_named(word@),
{
    if same_text(word, "message") {
        Some(Shelf::Messages)
    } else if same_text(word, "credential") {
        Some(Shelf::Credentials)
    } else if same_text(word, "presentation") {
        Some(Shelf::Presentations)
    } else {
        None
    }
}

fn shelf_to_hold_on(args: &[String]) -> (shelf: Option<Shelf>)
    ensures
        match shelf {
            Some(s) => holds_on_shelf(words_of(args@)) && shelf_named(words_of(args@)[2]) == Some(s),
            None => !holds_on_shelf(words_of(args@)),
        },
{
    if args.len() >= 3 && same_text(args[1].as_str(), "hold") {
        shelf_of_word(args[2].as_str())
    } else {
        None
    }
}

impl Config {
    /// Reads a command line.
    pub fn new(args: &[String]) -> (config: Result<Config, WalletError>)
        ensures
            config matches Ok(c) && c@ == parsed(words_of(args@)),
    {
        if args.len() < 2 {
            return Ok(Config { cmd: Command::Help });
        }
        if args.len() >= 4 {
            if let Some(shelf) = shelf_to_hold_on(args) {
                return Ok(Config { cmd: Command::Hold { shelf, dcem: args[3].clone() } });
            }
        }
        let name = args[1].as_str();
        let cmd = match count_of(name) {
            None => Command::Help,
            Some(n) => {
                if args.len() < 2 + n {
                    Command::Help
                } else {
                    build(name, word(args, 2), word(args, 3), word(args, 4))
                }
            },
        };
        Ok(Config { cmd })
    }

    /// Whether the command line lacks nothing but its last word.
    pub fn lacks_last_word(args: &[String]) -> (lacks: bool)
        ensures
            lacks == lacks_last_word(words_of(args@)),
    {
        if args.len() < 2 {
            return false;
        }
        if args.len() == 3 && shelf_to_hold_on(args).is_some() {
            return true;
        }
        match count_of(args[1].as_str()) {
            Some(n) => n >= 1 && args.len() == 1 + n,
            None => false,
        }
    }

    /// The command.
    pub fn command(&self) -> (cmd: &Command)
        ensures
            cmd@ == self@,
    {
        &self.cmd
    }
}

/// The help text.
pub const HELP: &'static str = "
    DID:
        did init
        did doc
        did connect <didname> <did>
        did dids
        did did <didname>

    DIDComm v2:
        did write  <subject didname> <message>  -->  <dcem>
        did hold   <dcem>                       -->  <dcem>
        did read   <dcem>                       -->  <plaintext message>
        did messages
        did message <message id>

    Verifiable Credentials over DIDComm v2:
        did issue   Passport         <subject didname>      -->  <dcem>
        did issue   DriversLicense   <subject didname>      -->  <dcem>
        did issue   TrafficAuthority <subject didname>      -->  <dcem>
        did issue   LawEnforcer      <subject didname>      -->  <dcem>

        did present <verifier didname>                 <dcem>  -->  <dcem>
        did verify  <issuer didname> <subject didname> <dcem>  -->  <dcem>

    Stored data:
        did hold credential <dcem>              -->  <dcem>
        did credentials
        did credential <message id>
        did presentations
        did presentation <message id>
";

/// The help text.
pub open spec fn help_text() -> Seq<char> {
    HELP@
}

/// The help text.
pub fn help() -> (text: String)
    ensures
        text@ == help_text(),
{
    HELP.to_owned()
}

/// What a command answers.
#[allow(inconsistent_fields)]
pub enum Reply {
    /// Text to show.
    Text(String),
    /// The wallet's DID document, as indented JSON.
    Document(String),
    /// Aliases.
    Names(Vec<String>),
    /// The message ids under which a shelf keeps something, ascending.
    Records { shelf: Shelf, ids: Vec<u64> },
    /// A credential to sign; the signed credential is then sealed to the
    /// subject.
    SignCredential { request: CredentialRequest, subject: String },
    /// A presentation to sign; the signed presentation is then sent to the
    /// verifier.
    SignPresentation { request: PresentationRequest, verifier: String },
    /// A presentation whose proofs are to be checked.
    CheckPresentation { verification: Verification },
}

/// A `Reply` as plain values.
#[allow(inconsistent_fields)]
pub enum ReplyView {
    Text(Seq<char>),
    Document(Seq<char>),
    Names(Seq<Seq<char>>),
    Records { shelf: Shelf, ids: Seq<u64> },
    SignCredential { request: CredentialRequestView, subject: Seq<char> },
    SignPresentation { request: PresentationRequestView, verifier: Seq<char> },
    CheckPresentation { verification: VerificationView },
}

impl View for Reply {
    type V = ReplyView;

    open spec fn view(&self) -> ReplyView {
        match self {
            Reply::Text(text) => ReplyView::Text(text@),
            Reply::Document(document) => ReplyView::Document(document@),
            Reply::Names(names) => ReplyView::Names(names@.map_values(|s: String| s@)),
            Reply::Records { shelf, ids } => ReplyView::Records { shelf: *shelf, ids: ids@ },
            Reply::SignCredential { request, subject } => ReplyView::SignCredential {
                request: request@,
                subject: subject@,
            },
            Reply::SignPresentation { request, verifier } => ReplyView::SignPresentation {
                request: request@,
                verifier: verifier@,
            },
            Reply::CheckPresentation { verification } => ReplyView::CheckPresentation {
                verification: verification@,
            },
        }
    }
}

/// The view of a reply or an error.
pub open spec fn reply_outcome(outcome: Result<Reply, WalletError>) -> Result<ReplyView, WalletError> {
    match outcome {
        Ok(reply) => Ok(reply@),
        Err(e) => Err(e),
    }
}

/// What `doc` answers: the DID document of the wallet's identity.
pub open spec fn doc_answer(store: WalletView) -> Result<ReplyView, WalletError> {
    match loaded(store) {
        Ok(me) => Ok(ReplyView::Document(did_document_text(me.public_key))),
        Err(e) => Err(e),
    }
}

/// What `connect` answers: where the two directions of the connection are
/// kept, one to a line.
pub open spec fn connect_answer(didname: Seq<char>, did: Seq<char>) -> Result<ReplyView, WalletError> {
    Ok(ReplyView::Text(in_dir(NAMES_DIR@, didname) + "\n"@ + in_dir(DIDS_DIR@, did)))
}

/// What `did` answers: the DID of the alias.
pub open spec fn did_answer(store: WalletView, didname: Seq<char>) -> Result<ReplyView, WalletError> {
    match resolved_did(store, didname) {
        Ok(did) => Ok(ReplyView::Text(did)),
        Err(e) => Err(e),
    }
}

/// What `read` answers: the message that the envelope opens to.
pub open spec fn read_answer(store: WalletView, dcem: Seq<char>) -> Result<ReplyView, WalletError> {
    match read_as(store, dcem) {
        Ok(reading) => Ok(ReplyView::Text(reading.plaintext)),
        Err(e) => Err(e),
    }
}

/// What `hold` answers: the envelope, as it was given.
pub open spec fn hold_answer(store: WalletView, shelf: Shelf, dcem: Seq<char>) -> Result<ReplyView, WalletError> {
    match held(store, shelf, dcem).1 {
        Ok(_) => Ok(ReplyView::Text(dcem)),
        Err(e) => Err(e),
    }
}

/// What `message` answers: the envelope kept under the id, unopened.
pub open spec fn message_answer(store: WalletView, message_id: Seq<char>) -> Result<ReplyView, WalletError> {
    match id_of(message_id) {
        None => Err(WalletError::NotAnId),
        Some(id) => if store.messages.contains_key(id) {
            Ok(ReplyView::Text(store.messages[id]))
        } else {
            Err(WalletError::UnknownRecord(id))
        },
    }
}

/// What showing a record of a shelf answers: the text it opens to.
pub open spec fn shown(store: WalletView, shelf: Shelf, id_text: Seq<char>) -> Result<ReplyView, WalletError> {
    match id_of(id_text) {
        None => Err(WalletError::NotAnId),
        Some(id) => match recalled_as(store, shelf, id) {
            Ok(reading) => Ok(ReplyView::Text(reading.plaintext)),
            Err(e) => Err(e),
        },
    }
}

/// What `issue` answers at a given time: the credential to sign, dated with
/// that time, and the alias of the subject it is to be sealed to.
pub open spec fn issue_answer(
    store: WalletView,
    credential_type: CredentialType,
    didname: Seq<char>,
    seconds: u64,
) -> Result<ReplyView, WalletError> {
    match issued_at(store, credential_type, didname, seconds) {
        Ok(request) => Ok(ReplyView::SignCredential { request, subject: didname }),
        Err(e) => Err(e),
    }
}

/// What `present` answers: the presentation to sign, and the alias of the
/// verifier it is to be sent to.
pub open spec fn present_answer(store: WalletView, didname: Seq<char>, dcem: Seq<char>) -> Result<
    ReplyView,
    WalletError,
> {
    match presented_from(store, dcem) {
        Ok(request) => Ok(ReplyView::SignPresentation { request, verifier: didname }),
        Err(e) => Err(e),
    }
}

/// What `verify` answers: the verification of the presentation, begun.
pub open spec fn verify_answer(
    store: WalletView,
    issuer_didname: Seq<char>,
    subject_didname: Seq<char>,
    dcem: Seq<char>,
) -> Result<ReplyView, WalletError> {
    match verification_of(store, issuer_didname, subject_didname, dcem) {
        Ok(verification) => Ok(ReplyView::CheckPresentation { verification }),
        Err(e) => Err(e),
    }
}

/// Store and answer after a command that draws on nothing but its words and
/// the store. `Init` and `Write` draw on chance and `Issue` on the clock, so
/// they are not among them, and what a listing answers is said apart.
pub open spec fn answered(store: WalletView, command: CommandView) -> Option<(WalletView, Result<ReplyView, WalletError>)> {
    match command {
        CommandView::Help => Some((store, Ok(ReplyView::Text(help_text())))),
        CommandView::Doc => Some((store, doc_answer(store))),
        CommandView::Connect { didname, did } => Some((connected(store, didname, did), connect_answer(didname, did))),
        CommandView::Did { didname } => Some((store, did_answer(store, didname))),
        CommandView::Read { dcem } => Some((store, read_answer(store, dcem))),
        CommandView::Hold { shelf, dcem } => Some((held(store, shelf, dcem).0, hold_answer(store, shelf, dcem))),
        CommandView::Message { message_id } => Some((store, message_answer(store, message_id))),
        CommandView::Credential { credential_id } => Some((store, shown(store, Shelf::Credentials, credential_id))),
        CommandView::Presentation { presentation_id } => Some(
            (store, shown(store, Shelf::Presentations, presentation_id)),
        ),
        CommandView::Present { didname, dcem } => Some((store, present_answer(store, didname, dcem))),
        CommandView::Verify { issuer_didname, subject_didname, dcem } => Some(
            (store, verify_answer(store, issuer_didname, subject_didname, dcem)),
        ),
        _ => None,
    }
}

/// The shelf that a listing command lists.
pub open spec fn listed_shelf(command: CommandView) -> Option<Shelf> {
    match command {
        CommandView::Messages => Some(Shelf::Messages),
        CommandView::Credentials => Some(Shelf::Credentials),
        CommandView::Presentations => Some(Shelf::Presentations),
        _ => None,
    }
}

/// The ids are those under which the shelf keeps something, in ascending
/// order.
pub open spec fn lists(store: WalletView, shelf: Shelf, ids: Seq<u64>) -> bool {
    &&& forall|i: int, j: int| 0 <= i < j < ids.len() ==> ids[i] < ids[j]
    &&& forall|id: u64| shelf_of(store, shelf).contains_key(id) <==> ids.contains(id)
}

/// The names are the aliases of the store, each of them once and no other,
/// in the order of the dictionary.
pub open spec fn names_all(store: WalletView, names: Seq<String>) -> bool {
    &&& ascending(texts_in(names))
    &&& texts_in(names).no_duplicates()
    &&& forall|k: Seq<char>| store.names.contains_key(k) <==> texts_in(names).contains(k)
}

/// What `init` answers, given the identity that was found or made: its DID.
pub open spec fn init_answer(identity: Result<IdentityView, WalletError>) -> Result<ReplyView, WalletError> {
    match identity {
        Ok(me) => Ok(ReplyView::Text(me.did)),
        Err(e) => Err(e),
    }
}

/// What holds after `Init`: a store that held an identity is as it was, and
/// the answer is the DID of that identity; a store that held none has the
/// identity of some seed installed, and the answer is its DID, or it is as
/// it was and the answer is `Storage`, where no seed could be drawn.
pub open spec fn initialised(before: WalletView, after: WalletView, outcome: Result<Reply, WalletError>) -> bool {
    if before.key_file is Some {
        after == before && reply_outcome(outcome) == init_answer(loaded(before))
    } else {
        ||| after == before && outcome == Err::<Reply, WalletError>(WalletError::Storage)
        ||| exists|seed: Seq<u8>|
            after == (#[trigger] installed(before, seed)).0 && reply_outcome(outcome) == init_answer(
                installed(before, seed).1,
            )
    }
}

/// What holds after `Write`: the answer is the envelope of a message that
/// was sent to the peer for the default time, with a copy kept among the
/// messages; where it fails, nothing is kept.
pub open spec fn wrote(
    before: WalletView,
    after: WalletView,
    didname: Seq<char>,
    message: Seq<char>,
    outcome: Result<Reply, WalletError>,
) -> bool {
    match outcome {
        Ok(Reply::Text(dcem)) => exists|written: Written|
            #![trigger written.outgoing]
            {
                &&& written.outgoing.envelope@ == dcem@
                &&& sent_and_kept(
                    before,
                    after,
                    Shelf::Messages,
                    didname,
                    message,
                    DEFAULT_TTL,
                    Ok::<Written, WalletError>(written),
                )
            },
        Ok(_) => false,
        Err(e) => sent_and_kept(before, after, Shelf::Messages, didname, message, DEFAULT_TTL, Err::<
            Written,
            WalletError,
        >(e)),
    }
}

/// What holds after `Issue`: the answer is what `issue` answers at some
/// time, or `NoClock` where the clock gives none.
pub open spec fn issued_now(
    store: WalletView,
    credential_type: CredentialType,
    didname: Seq<char>,
    outcome: Result<Reply, WalletError>,
) -> bool {
    outcome == Err::<Reply, WalletError>(WalletError::NoClock) || exists|seconds: u64|
        reply_outcome(outcome) == #[trigger] issue_answer(store, credential_type, didname, seconds)
}

fn run_init(store: &mut WalletStore) -> (outcome: Result<Reply, WalletError>)
    requires
        old(store).wf(),
    ensures
        final(store).wf(),
        initialised(old(store)@, final(store)@, outcome),
{
    let ghost before = store@;
    let found = ensure_identity(store);
    let ghost made = identity_outcome(found);
    let outcome = match found {
        Ok(me) => Ok(Reply::Text(me.did().to_owned())),
        Err(e) => Err(e),
    };
    assert(reply_outcome(outcome) == init_answer(made));
    proof {
        if before.key_file is None && !(store@ == before && outcome == Err::<Reply, WalletError>(
            WalletError::Storage,
        )) {
            let seed = choose|seed: Seq<u8>| (store@, made) == #[trigger] installed(before, seed);
            assert(store@ == installed(before, seed).0);
        }
    }
    outcome
}

fn run_write(store: &mut WalletStore, didname: &str, message: &str) -> (outcome: Result<Reply, WalletError>)
    requires
        old(store).wf(),
    ensures
        final(store).wf(),
        wrote(old(store)@, final(store)@, didname@, message@, outcome),
{
    match crate::wallet::write(store, didname, message, DEFAULT_TTL) {
        Ok(written) => {
            let dcem = written.outgoing.envelope.clone();
            assert(written.outgoing.envelope@ == dcem@);
            Ok(Reply::Text(dcem))
        },
        Err(e) => Err(e),
    }
}

fn run_doc(store: &WalletStore) -> (outcome: Result<Reply, WalletError>)
    requires
        store.wf(),
    ensures
        reply_outcome(outcome) == doc_answer(store@),
{
    match self_did_document_text(store) {
        Ok(document) => Ok(Reply::Document(document)),
        Err(e) => Err(e),
    }
}

fn run_connect(store: &mut WalletStore, didname: &str, did: &str) -> (outcome: Result<Reply, WalletError>)
    requires
        old(store).wf(),
    ensures
        final(store).wf(),
        final(store)@ == connected(old(store)@, didname@, did@),
        reply_outcome(outcome) == connect_answer(didname@, did@),
{
    let done = connect(store, didname, did);
    let mut text = join(done.name_path.as_str(), "\n");
    text.append(done.did_path.as_str());
    Ok(Reply::Text(text))
}

fn run_did(store: &WalletStore, didname: &str) -> (outcome: Result<Reply, WalletError>)
    requires
        store.wf(),
    ensures
        reply_outcome(outcome) == did_answer(store@, didname@),
{
    match resolve_did(store, didname) {
        Ok(did) => Ok(Reply::Text(did)),
        Err(e) => Err(e),
    }
}

fn run_read(store: &WalletStore, dcem: &str) -> (outcome: Result<Reply, WalletError>)
    requires
        store.wf(),
    ensures
        reply_outcome(outcome) == read_answer(store@, dcem@),
{
    match read(store, dcem) {
        Ok(reading) => Ok(Reply::Text(reading.plaintext)),
        Err(e) => Err(e),
    }
}

fn run_hold(store: &mut WalletStore, shelf: Shelf, dcem: String) -> (outcome: Result<Reply, WalletError>)
    requires
        old(store).wf(),
    ensures
        final(store).wf(),
        final(store)@ == held(old(store)@, shelf, dcem@).0,
        reply_outcome(outcome) == hold_answer(old(store)@, shelf, dcem@),
{
    match hold(store, shelf, dcem.as_str()) {
        Ok(_) => Ok(Reply::Text(dcem)),
        Err(e) => Err(e),
    }
}

fn run_message(store: &WalletStore, message_id: &str) -> (outcome: Result<Reply, WalletError>)
    requires
        store.wf(),
    ensures
        reply_outcome(outcome) == message_answer(store@, message_id@),
{
    match parse_id(message_id) {
        None => Err(WalletError::NotAnId),
        Some(id) => match kept(store, Shelf::Messages, id) {
            Ok(envelope) => Ok(Reply::Text(envelope)),
            Err(e) => Err(e),
        },
    }
}

fn run_show(store: &WalletStore, shelf: Shelf, id_text: &str) -> (outcome: Result<Reply, WalletError>)
    requires
        store.wf(),
    ensures
        reply_outcome(outcome) == shown(store@, shelf, id_text@),
{
    match parse_id(id_text) {
        None => Err(WalletError::NotAnId),
        Some(id) => match recall(store, shelf, id) {
            Ok(reading) => Ok(Reply::Text(reading.plaintext)),
            Err(e) => Err(e),
        },
    }
}

fn run_issue(store: &WalletStore, credential_type: CredentialType, didname: String) -> (outcome: Result<
    Reply,
    WalletError,
>)
    requires
        store.wf(),
    ensures
        issued_now(store@, credential_type, didname@, outcome),
{
    let now = match current_time() {
        Some(now) => now,
        None => {
            return Err(WalletError::NoClock);
        },
    };
    let outcome = match issue_at(store, credential_type, didname.as_str(), now) {
        Ok(request) => Ok(Reply::SignCredential { request, subject: didname }),
        Err(e) => Err(e),
    };
    assert(reply_outcome(outcome) == issue_answer(store@, credential_type, didname@, now));
    outcome
}

fn run_present(store: &WalletStore, didname: String, dcem: &str) -> (outcome: Result<Reply, WalletError>)
    requires
        store.wf(),
    ensures
        reply_outcome(outcome) == present_answer(store@, didname@, dcem@),
{
    match present_from(store, dcem) {
        Ok(request) => Ok(Reply::SignPresentation { request, verifier: didname }),
        Err(e) => Err(e),
    }
}

fn run_verify(store: &WalletStore, issuer_didname: &str, subject_didname: &str, dcem: &str) -> (outcome: Result<
    Reply,
    WalletError,
>)
    requires
        store.wf(),
    ensures
        reply_outcome(outcome) == verify_answer(store@, issuer_didname@, subject_didname@, dcem@),
{
    match begin_verification(store, issuer_didname, subject_didname, dcem) {
        Ok(verification) => Ok(Reply::CheckPresentation { verification }),
        Err(e) => Err(e),
    }
}

fn run_listing(store: &WalletStore, shelf: Shelf) -> (outcome: Result<Reply, WalletError>)
    requires
        store.wf(),
    ensures
        match outcome {
            Ok(Reply::Records { shelf: listed, ids }) => listed == shelf && lists(store@, shelf, ids@),
            _ => false,
        },
{
    Ok(Reply::Records { shelf, ids: listing(store, shelf) })
}

fn run_dids(store: &WalletStore) -> (outcome: Result<Reply, WalletError>)
    requires
        store.wf(),
    ensures
        match outcome {
            Ok(Reply::Names(names)) => names_all(store@, names@),
            _ => false,
        },
{
    let table = store.names();
    proof {
        table.lemma_order();
    }
    let names = in_order(&table.keys());
    proof {
        let texts = texts_in(names@);
        assert forall|i: int, j: int| 0 <= i < texts.len() && 0 <= j < texts.len() && i != j implies texts[i]
            != texts[j] by {
            crate::text::lemma_not_before_itself(texts[i]);
            if i < j {
                assert(crate::text::comes_before(texts[i], texts[j]));
            } else {
                assert(crate::text::comes_before(texts[j], texts[i]));
            }
        }
    }
    Ok(Reply::Names(names))
}

/// Runs a command on the store.
///
/// A credential or presentation that is drawn up comes back unsigned, and a
/// presentation to verify comes back opened: the proofs are made and
/// checked by the caller.
pub fn run(config: Config, store: &mut WalletStore) -> (outcome: Result<Reply, WalletError>)
    requires
        old(store).wf(),
    ensures
        final(store).wf(),
        match answered(old(store)@, config@) {
            Some(answer) => (final(store)@, reply_outcome(outcome)) == answer,
            None => true,
        },
        match listed_shelf(config@) {
            Some(shelf) => final(store)@ == old(store)@ && match outcome {
                Ok(Reply::Records { shelf: listed, ids }) => listed == shelf && lists(old(store)@, shelf, ids@),
                _ => false,
            },
            None => true,
        },
        config@ is Dids ==> final(store)@ == old(store)@ && match outcome {
            Ok(Reply::Names(names)) => names_all(old(store)@, names@),
            _ => false,
        },
        config@ is Init ==> initialised(old(store)@, final(store)@, outcome),
        match config@ {
            CommandView::Write { didname, message } => wrote(old(store)@, final(store)@, didname, message, outcome),
            CommandView::Issue { credential_type, didname } => final(store)@ == old(store)@ && issued_now(
                old(store)@,
                credential_type,
                didname,
                outcome,
            ),
            _ => true,
        },
{
    match config.cmd {
        Command::Help => Ok(Reply::Text(help())),
        Command::Init => run_init(store),
        Command::Doc => run_doc(store),
        Command::Connect { didname, did } => run_connect(store, didname.as_str(), did.as_str()),
        Command::Dids => run_dids(store),
        Command::Did { didname } => run_did(store, didname.as_str()),
        Command::Write { didname, message } => run_write(store, didname.as_str(), message.as_str()),
        Command::Read { dcem } => run_read(store, dcem.as_str()),
        Command::Hold { shelf, dcem } => run_hold(store, shelf, dcem),
        Command::Messages => run_listing(store, Shelf::Messages),
        Command::Message { message_id } => run_message(store, message_id.as_str()),
        Command::Issue { credential_type, didname } => run_issue(store, credential_type, didname),
        Command::Present { didname, dcem } => run_present(store, didname, dcem.as_str()),
        Command::Verify { issuer_didname, subject_didname, dcem } => run_verify(
            store,
            issuer_didname.as_str(),
            subject_didname.as_str(),
            dcem.as_str(),
        ),
        Command::Credentials => run_listing(store, Shelf::Credentials),
        Command::Credential { credential_id } => run_show(store, Shelf::Credentials, credential_id.as_str()),
        Command::Presentations => run_listing(store, Shelf::Presentations),
        Command::Presentation { presentation_id } => run_show(store, Shelf::Presentations, presentation_id.as_str()),
    }
}

} // verus!
