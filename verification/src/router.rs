//! The four commands, as a state machine over the replies of the ledger.
//!
//! The caller owns the connection to the ledger. It hands each event to
//! [`step`], carries out the action that comes back and reports the result
//! as the next event, until the action is to finish.

use vstd::prelude::*;
use vstd::string::StringExecFns;

use crate::amount::{
    parse_display_amount, spec_display, spec_parse_display_amount, AccountBalance, AmountError,
};
use crate::credential::{held_text, spec_resolve, EnvKeyProvider};
use crate::error::ErrorKind;
use crate::key::{ed25519_public, pubkey_text, spec_encode, KeyMaterial};
use crate::ledger::{AirdropRequest, AirdropRequestView, LedgerError, SignatureId};

verus! {

/// What the user asks for.
#[derive(Clone, Copy, Debug, PartialEq, Eq, Structural)]
pub enum Command {
    /// Make a new identity and show both of its halves.
    Generate,
    /// Show the public identifier of the credential.
    ShowPublicKey,
    /// Show the balance of the credential's account.
    ShowBalance,
    /// Ask the ledger to fund the credential's account.
    Airdrop {
        /// The amount in base units.
        amount: u64,
    },
}

/// How far a command has come.
#[derive(Clone, Copy, Debug, PartialEq, Eq, Structural)]
pub enum RouterState {
    /// No command has been taken up yet.
    Ready,
    /// The balance has been asked for.
    AwaitingBalance,
    /// The airdrop of `amount` base units has been asked for.
    AwaitingAirdrop { amount: u64 },
    /// The airdrop of `amount` base units waits for its confirmation.
    AwaitingConfirmation { amount: u64 },
    /// The command has ended.
    Finished,
}

/// What happened outside the router.
#[derive(Debug, PartialEq, Eq)]
pub enum Event {
    /// The program was started with `command`, and the credential variable
    /// held `credential` (`None` where it was not set).
    Invoked { command: Command, credential: Option<String> },
    /// The ledger answered the balance query.
    BalanceFetched { balance: Result<u64, LedgerError> },
    /// The ledger answered the airdrop request.
    AirdropRequested { signature: Result<SignatureId, LedgerError> },
    /// The wait for confirmation ended: with `Ok(true)` where the ledger
    /// confirmed the transaction, with `Ok(false)` where it did not.
    TransactionConfirmed { confirmed: Result<bool, LedgerError> },
}

/// An [`Event`] as contracts see it.
pub enum EventView {
    Invoked { command: Command, credential: Option<Seq<char>> },
    BalanceFetched { balance: Result<u64, LedgerError> },
    AirdropRequested { signature: Result<Seq<u8>, LedgerError> },
    TransactionConfirmed { confirmed: Result<bool, LedgerError> },
}

impl View for Event {
    type V = EventView;

    open spec fn view(&self) -> EventView {
        match *self {
            Event::Invoked { command, credential } => EventView::Invoked {
                command,
                credential: held_text(credential),
            },
            Event::BalanceFetched { balance } => EventView::BalanceFetched { balance },
            Event::AirdropRequested { signature } => EventView::AirdropRequested {
                signature: match signature {
                    Ok(id) => Ok(id@),
                    Err(error) => Err(error),
                },
            },
            Event::TransactionConfirmed { confirmed } => EventView::TransactionConfirmed {
                confirmed,
            },
        }
    }
}

/// How a command ended.
#[derive(Clone, Debug, PartialEq, Eq)]
pub enum Outcome {
    /// It succeeded, and these lines are to be printed.
    Completed { lines: Vec<String> },
    /// It failed for this reason.
    Failed { error: ErrorKind },
}

/// An [`Outcome`] as contracts see it.
pub enum OutcomeView {
    Completed { lines: Seq<Seq<char>> },
    Failed { error: ErrorKind },
}

/// The texts of `lines`.
pub open spec fn texts(lines: Seq<String>) -> Seq<Seq<char>> {
    Seq::new(lines.len(), |i: int| lines[i]@)
}

impl View for Outcome {
    type V = OutcomeView;

    open spec fn view(&self) -> OutcomeView {
        match *self {
            Outcome::Completed { lines } => OutcomeView::Completed { lines: texts(lines@) },
            Outcome::Failed { error } => OutcomeView::Failed { error },
        }
    }
}

impl Outcome {
    /// The status that the process exits with: zero after success, one
    /// after a failure.
    pub fn exit_code(&self) -> (code: u8)
        ensures
            code == (if self@ is Completed {
                0u8
            } else {
                1u8
            }),
    {
        match self {
            Outcome::Completed { .. } => 0,
            Outcome::Failed { .. } => 1,
        }
    }
}

/// What the caller is to do next.
#[derive(Clone, Debug, PartialEq, Eq)]
pub enum Action {
    /// Ask the ledger for the balance of `identifier`.
    GetBalance { identifier: [u8; 32] },
    /// Submit `request` to the ledger.
    RequestAirdrop { request: AirdropRequest },
    /// Wait until the ledger confirms the transaction under `signature`.
    ConfirmTransaction { signature: SignatureId },
    /// Report the outcome and exit.
    Finish { outcome: Outcome },
    /// Nothing: the event was not the one that the state waits for.
    Ignore,
}

/// An [`Action`] as contracts see it.
pub enum ActionView {
    GetBalance { identifier: Seq<u8> },
    RequestAirdrop { request: AirdropRequestView },
    ConfirmTransaction { signature: Seq<u8> },
    Finish { outcome: OutcomeView },
    Ignore,
}

impl View for Action {
    type V = ActionView;

    open spec fn view(&self) -> ActionView {
        match *self {
            Action::GetBalance { identifier } => ActionView::GetBalance { identifier: identifier@ },
            Action::RequestAirdrop { request } => ActionView::RequestAirdrop { request: request@ },
            Action::ConfirmTransaction { signature } => ActionView::ConfirmTransaction {
                signature: signature@,
            },
            Action::Finish { outcome } => ActionView::Finish { outcome: outcome@ },
            Action::Ignore => ActionView::Ignore,
        }
    }
}

/// The state after an event, and what the caller is to do.
#[derive(Clone, Debug, PartialEq, Eq)]
pub struct Transition {
    pub next: RouterState,
    pub action: Action,
}

/// The line that shows the public identifier of the identity with `seed`.
pub open spec fn public_key_line(seed: Seq<u8>) -> Seq<char> {
    "Public key: "@ + pubkey_text(ed25519_public(seed))
}

/// The line that shows the exported keypair of the identity with `seed`.
pub open spec fn private_key_line(seed: Seq<u8>) -> Seq<char> {
    "Private key: "@ + spec_encode(seed)
}

/// The report on a new identity with `seed`.
pub open spec fn generated_lines(seed: Seq<u8>) -> Seq<Seq<char>> {
    seq![
        "New keypair generated:"@,
        public_key_line(seed),
        private_key_line(seed),
        "Remember to update your .env file with the new private key!"@,
    ]
}

/// The line that shows a balance of `base_units`.
pub open spec fn balance_line(base_units: nat) -> Seq<char> {
    "Balance: "@ + spec_display(base_units) + " SOL"@
}

/// The line that reports a confirmed airdrop of `base_units`.
pub open spec fn airdrop_line(base_units: nat) -> Seq<char> {
    "Airdrop of "@ + spec_display(base_units) + " SOL successful"@
}

/// The transition that ends the command with the single line `line`.
pub open spec fn finish_with_line(line: Seq<char>) -> (RouterState, ActionView) {
    (
        RouterState::Finished,
        ActionView::Finish { outcome: OutcomeView::Completed { lines: seq![line] } },
    )
}

/// The transition that ends the command with the failure `error`.
pub open spec fn finish_with_error(error: ErrorKind) -> (RouterState, ActionView) {
    (RouterState::Finished, ActionView::Finish { outcome: OutcomeView::Failed { error } })
}

/// The first transition of `command`, where the credential variable holds
/// `credential` and a newly made identity would have the seed `fresh`.
pub open spec fn spec_start(command: Command, credential: Option<Seq<char>>, fresh: Seq<u8>) -> (
    RouterState,
    ActionView,
) {
    match command {
        Command::Generate => (
            RouterState::Finished,
            ActionView::Finish {
                outcome: OutcomeView::Completed { lines: generated_lines(fresh) },
            },
        ),
        Command::ShowPublicKey => match spec_resolve(credential) {
            Ok(seed) => finish_with_line(public_key_line(seed)),
            Err(error) => finish_with_error(error),
        },
        Command::ShowBalance => match spec_resolve(credential) {
            Ok(seed) => (
                RouterState::AwaitingBalance,
                ActionView::GetBalance { identifier: ed25519_public(seed) },
            ),
            Err(error) => finish_with_error(error),
        },
        Command::Airdrop { amount } => match spec_resolve(credential) {
            Ok(seed) => (
                RouterState::AwaitingAirdrop { amount },
                ActionView::RequestAirdrop {
                    request: AirdropRequestView { target: ed25519_public(seed), amount },
                },
            ),
            Err(error) => finish_with_error(error),
        },
    }
}

/// The first transition of an airdrop whose amount is given as the text
/// `amount` in display units. The credential is resolved first and the
/// amount is converted after it, so a credential that cannot be used ends
/// the command whatever the amount is; a text that is no amount is refused
/// only once the credential is known to be good.
pub open spec fn spec_start_airdrop(amount: Seq<char>, credential: Option<Seq<char>>) -> Result<
    (RouterState, ActionView),
    AmountError,
> {
    match spec_resolve(credential) {
        Err(error) => Ok(finish_with_error(error)),
        Ok(seed) => match spec_parse_display_amount(amount) {
            Err(reason) => Err(reason),
            Ok(base_units) => Ok(
                (
                    RouterState::AwaitingAirdrop { amount: base_units },
                    ActionView::RequestAirdrop {
                        request: AirdropRequestView {
                            target: ed25519_public(seed),
                            amount: base_units,
                        },
                    },
                ),
            ),
        },
    }
}

/// The transition that `event` causes in `state`, where a newly made
/// identity would have the seed `fresh`. An airdrop is a success only once
/// the ledger has confirmed it: a wait that ends without a confirmation is
/// a confirmation that did not come in time. An event that the state does
/// not wait for changes nothing.
pub open spec fn spec_step(state: RouterState, event: EventView, fresh: Seq<u8>) -> (
    RouterState,
    ActionView,
) {
    match (state, event) {
        (RouterState::Ready, EventView::Invoked { command, credential }) => spec_start(
            command,
            credential,
            fresh,
        ),
        (RouterState::AwaitingBalance, EventView::BalanceFetched { balance }) => match balance {
            Ok(base_units) => finish_with_line(balance_line(base_units as nat)),
            Err(error) => finish_with_error(error.spec_kind()),
        },
        (RouterState::AwaitingAirdrop { amount }, EventView::AirdropRequested { signature }) => {
            match signature {
                Ok(id) => (
                    RouterState::AwaitingConfirmation { amount },
                    ActionView::ConfirmTransaction { signature: id },
                ),
                Err(error) => finish_with_error(error.spec_kind()),
            }
        },
        (
            RouterState::AwaitingConfirmation { amount },
            EventView::TransactionConfirmed { confirmed },
        ) => match confirmed {
            Ok(true) => finish_with_line(airdrop_line(amount as nat)),
            Ok(false) => finish_with_error(ErrorKind::ConfirmationTimeout),
            Err(error) => finish_with_error(error.spec_kind()),
        },
        _ => (state, ActionView::Ignore),
    }
}

/// Whether `event` is the one that `state` waits for.
pub open spec fn awaits(state: RouterState, event: EventView) -> bool {
    match (state, event) {
        (RouterState::Ready, EventView::Invoked { .. }) => true,
        (RouterState::AwaitingBalance, EventView::BalanceFetched { .. }) => true,
        (RouterState::AwaitingAirdrop { .. }, EventView::AirdropRequested { .. }) => true,
        (RouterState::AwaitingConfirmation { .. }, EventView::TransactionConfirmed { .. }) => true,
        _ => false,
    }
}

/// The failure that `event` reports, if it reports one. A wait that ended
/// without a confirmation counts as a confirmation that timed out.
pub open spec fn reported_failure(event: EventView) -> Option<LedgerError> {
    match event {
        EventView::Invoked { .. } => None,
        EventView::BalanceFetched { balance } => match balance {
            Ok(_) => None,
            Err(error) => Some(error),
        },
        EventView::AirdropRequested { signature } => match signature {
            Ok(_) => None,
            Err(error) => Some(error),
        },
        EventView::TransactionConfirmed { confirmed } => match confirmed {
            Ok(true) => None,
            Ok(false) => Some(LedgerError::ConfirmationTimeout),
            Err(error) => Some(error),
        },
    }
}

/// Whether `action` asks something of the ledger.
pub open spec fn calls_ledger(action: ActionView) -> bool {
    action is GetBalance || action is RequestAirdrop || action is ConfirmTransaction
}

/// The number of events that a command in `state` still waits for, at
/// most.
pub open spec fn events_left(state: RouterState) -> nat {
    match state {
        RouterState::Ready => 3,
        RouterState::AwaitingBalance => 1,
        RouterState::AwaitingAirdrop { .. } => 2,
        RouterState::AwaitingConfirmation { .. } => 1,
        RouterState::Finished => 0,
    }
}

/// `label` followed by `value`, as one line.
fn labelled(label: &str, value: &str) -> (line: String)
    ensures
        line@ == label@ + value@,
{
    let mut line = String::from_str(label);
    line.append(value);
    line
}

/// `label` followed by `value` and `unit`, as one line.
fn labelled_with_unit(label: &str, value: &str, unit: &str) -> (line: String)
    ensures
        line@ == label@ + value@ + unit@,
{
    let mut line = labelled(label, value);
    line.append(unit);
    line
}

/// The outcome of a command that succeeded with the single line `line`.
fn completed_with(line: String) -> (transition: Transition)
    ensures
        (transition.next, transition.action@) == finish_with_line(line@),
{
    let mut lines: Vec<String> = Vec::new();
    lines.push(line);
    assert(texts(lines@) =~= seq![line@]);
    Transition {
        next: RouterState::Finished,
        action: Action::Finish { outcome: Outcome::Completed { lines } },
    }
}

/// The outcome of a command that failed with `error`.
fn failed_with(error: ErrorKind) -> (transition: Transition)
    ensures
        (transition.next, transition.action@) == finish_with_error(error),
{
    Transition {
        next: RouterState::Finished,
        action: Action::Finish { outcome: Outcome::Failed { error } },
    }
}

/// The lines that report the new identity `key`.
pub fn generated_report(key: &KeyMaterial) -> (lines: Vec<String>)
    ensures
        texts(lines@) == generated_lines(key@),
{
    let identifier = key.identifier_text();
    let secret = key.encode();
    let mut lines: Vec<String> = Vec::new();
    lines.push(String::from_str("New keypair generated:"));
    lines.push(labelled("Public key: ", identifier.as_str()));
    lines.push(labelled("Private key: ", secret.as_str()));
    lines.push(String::from_str("Remember to update your .env file with the new private key!"));
    assert(texts(lines@) =~= generated_lines(key@));
    lines
}

/// Takes up `command`: resolves the credential where the command needs
/// one, and asks for the first ledger call or finishes at once.
pub fn start(command: Command, credential: Option<String>) -> (transition: Transition)
    ensures
        exists|fresh: Seq<u8>|
            fresh.len() == 32 && (transition.next, transition.action@) == #[trigger] spec_start(
                command,
                held_text(credential),
                fresh,
            ),
{
    let ghost held = held_text(credential);
    match command {
        Command::Generate => {
            let key = KeyMaterial::generate();
            let lines = generated_report(&key);
            let transition = Transition {
                next: RouterState::Finished,
                action: Action::Finish { outcome: Outcome::Completed { lines } },
            };
            assert((transition.next, transition.action@) == spec_start(command, held, key@));
            transition
        },
        _ => {
            let ghost fresh = Seq::new(32, |i: int| 0u8);
            let resolved = EnvKeyProvider::new(credential).resolve();
            let transition = match resolved {
                Err(error) => failed_with(error),
                Ok(key) => match command {
                    Command::ShowBalance => Transition {
                        next: RouterState::AwaitingBalance,
                        action: Action::GetBalance { identifier: key.public_identifier() },
                    },
                    Command::Airdrop { amount } => Transition {
                        next: RouterState::AwaitingAirdrop { amount },
                        action: Action::RequestAirdrop {
                            request: AirdropRequest::new(key.public_identifier(), amount),
                        },
                    },
                    _ => {
                        let identifier = key.identifier_text();
                        completed_with(labelled("Public key: ", identifier.as_str()))
                    },
                },
            };
            assert((transition.next, transition.action@) == spec_start(command, held, fresh));
            transition
        },
    }
}

/// Takes up an airdrop whose amount is given as text in display units:
/// resolves the credential, then converts the amount, then asks for the
/// request. The first of these to fail decides how the command ends.
pub fn start_airdrop(amount: &str, credential: Option<String>) -> (started: Result<
    Transition,
    AmountError,
>)
    ensures
        match spec_start_airdrop(amount@, held_text(credential)) {
            Ok(expected) => started is Ok && (started->Ok_0.next, started->Ok_0.action@)
                == expected,
            Err(reason) => started == Err::<Transition, AmountError>(reason),
        },
{
    match EnvKeyProvider::new(credential).resolve() {
        Err(error) => Ok(failed_with(error)),
        Ok(key) => match parse_display_amount(amount) {
            Err(reason) => Err(reason),
            Ok(base_units) => Ok(
                Transition {
                    next: RouterState::AwaitingAirdrop { amount: base_units },
                    action: Action::RequestAirdrop {
                        request: AirdropRequest::new(key.public_identifier(), base_units),
                    },
                },
            ),
        },
    }
}

/// Takes `event` in `state`: gives the state that follows and what the
/// caller is to do. The first failure ends the command; nothing is tried
/// again.
pub fn step(state: RouterState, event: Event) -> (transition: Transition)
    ensures
        exists|fresh: Seq<u8>|
            fresh.len() == 32 && (transition.next, transition.action@) == #[trigger] spec_step(
                state,
                event@,
                fresh,
            ),
{
    let ghost seen = event@;
    let ghost zeros = Seq::new(32, |i: int| 0u8);
    match (state, event) {
        (RouterState::Ready, Event::Invoked { command, credential }) => {
            let ghost held = held_text(credential);
            let transition = start(command, credential);
            let ghost fresh = choose|fresh: Seq<u8>|
                fresh.len() == 32 && (transition.next, transition.action@) == #[trigger] spec_start(
                    command,
                    held,
                    fresh,
                );
            assert((transition.next, transition.action@) == spec_step(state, seen, fresh));
            transition
        },
        (RouterState::AwaitingBalance, Event::BalanceFetched { balance }) => {
            let transition = match balance {
                Ok(base_units) => {
                    let shown = AccountBalance::new(base_units).display();
                    completed_with(labelled_with_unit("Balance: ", shown.as_str(), " SOL"))
                },
                Err(error) => failed_with(error.kind()),
            };
            assert((transition.next, transition.action@) == spec_step(state, seen, zeros));
            transition
        },
        (RouterState::AwaitingAirdrop { amount }, Event::AirdropRequested { signature }) => {
            let transition = match signature {
                Ok(id) => Transition {
                    next: RouterState::AwaitingConfirmation { amount },
                    action: Action::ConfirmTransaction { signature: id },
                },
                Err(error) => failed_with(error.kind()),
            };
            assert((transition.next, transition.action@) == spec_step(state, seen, zeros));
            transition
        },
        (
            RouterState::AwaitingConfirmation { amount },
            Event::TransactionConfirmed { confirmed },
        ) => {
            let transition = match confirmed {
                Ok(true) => {
                    let shown = AccountBalance::new(amount).display();
                    completed_with(
                        labelled_with_unit("Airdrop of ", shown.as_str(), " SOL successful"),
                    )
                },
                Ok(false) => failed_with(ErrorKind::ConfirmationTimeout),
                Err(error) => failed_with(error.kind()),
            };
            assert((transition.next, transition.action@) == spec_step(state, seen, zeros));
            transition
        },
        (state, _) => {
            let transition = Transition { next: state, action: Action::Ignore };
            assert((transition.next, transition.action@) == spec_step(state, seen, zeros));
            transition
        },
    }
}

/// A command that needs a credential and finds none that it can use ends
/// at once with the reason, and asks nothing of the ledger.
pub proof fn lemma_unusable_credential_ends_command(
    command: Command,
    credential: Option<Seq<char>>,
    fresh: Seq<u8>,
)
    requires
        command != Command::Generate,
        spec_resolve(credential) is Err,
    ensures
        spec_step(RouterState::Ready, EventView::Invoked { command, credential }, fresh)
            == finish_with_error(spec_resolve(credential)->Err_0),
        !calls_ledger(
            spec_step(RouterState::Ready, EventView::Invoked { command, credential }, fresh).1,
        ),
{
}

/// The first failure that the ledger reports ends the command with that
/// failure: no further call is made and no success is reported.
pub proof fn lemma_ledger_failure_ends_command(
    state: RouterState,
    event: EventView,
    fresh: Seq<u8>,
)
    requires
        awaits(state, event),
        reported_failure(event) is Some,
    ensures
        spec_step(state, event, fresh) == finish_with_error(
            reported_failure(event)->Some_0.spec_kind(),
        ),
{
}

/// Every awaited event brings the command nearer to its end, which comes
/// after three events at most; any other event changes nothing.
pub proof fn lemma_step_makes_progress(state: RouterState, event: EventView, fresh: Seq<u8>)
    ensures
        awaits(state, event) ==> events_left(spec_step(state, event, fresh).0) < events_left(
            state,
        ),
        !awaits(state, event) ==> spec_step(state, event, fresh) == (state, ActionView::Ignore),
        events_left(state) <= 3,
        events_left(state) == 0 <==> state == RouterState::Finished,
{
}

/// The ledger is asked for something only while the command goes on, and
/// an outcome is reported only when it ends.
pub proof fn lemma_outcome_comes_last(state: RouterState, event: EventView, fresh: Seq<u8>)
    ensures
        calls_ledger(spec_step(state, event, fresh).1) ==> spec_step(state, event, fresh).0
            != RouterState::Finished,
        spec_step(state, event, fresh).1 is Finish ==> spec_step(state, event, fresh).0
            == RouterState::Finished,
{
}

/// An airdrop that is given its amount as text starts as the command with
/// the converted amount does, wherever the text is an amount; and where
/// the credential cannot be used, the amount is not looked at.
pub proof fn lemma_airdrop_resolves_before_it_converts(
    amount: Seq<char>,
    credential: Option<Seq<char>>,
    fresh: Seq<u8>,
)
    ensures
        spec_resolve(credential) is Err ==> spec_start_airdrop(amount, credential) == Ok::<
            (RouterState, ActionView),
            AmountError,
        >(finish_with_error(spec_resolve(credential)->Err_0)),
        spec_parse_display_amount(amount) is Ok ==> spec_start_airdrop(amount, credential) == Ok::<
            (RouterState, ActionView),
            AmountError,
        >(
            spec_step(
                RouterState::Ready,
                EventView::Invoked {
                    command: Command::Airdrop { amount: spec_parse_display_amount(amount)->Ok_0 },
                    credential,
                },
                fresh,
            ),
        ),
        spec_resolve(credential) is Ok && spec_parse_display_amount(amount) is Err
            ==> spec_start_airdrop(amount, credential) == Err::<
            (RouterState, ActionView),
            AmountError,
        >(spec_parse_display_amount(amount)->Err_0),
{
}

/// An airdrop is reported as a success only after the ledger has confirmed
/// it.
pub proof fn lemma_success_needs_confirmation(
    amount: u64,
    confirmed: Result<bool, LedgerError>,
    fresh: Seq<u8>,
)
    ensures
        spec_step(
            RouterState::AwaitingConfirmation { amount },
            EventView::TransactionConfirmed { confirmed },
            fresh,
        ) == finish_with_line(airdrop_line(amount as nat)) <==> confirmed == Ok::<
            bool,
            LedgerError,
        >(true),
{
}

} // verus!
