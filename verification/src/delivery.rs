//! Delivery of one message: the retry policy, the fallback from a message with a map image
//! to plain text, and the way a map image is come by. Nothing here sends or fetches; each
//! function says what is to be done next, given how the last step went.

use vstd::prelude::*;
use crate::fanout::{Message, MessageView};

verus! {

/// How often a send or a fetch is tried before it is given up.
pub const MAX_RETRY_ATTEMPTS: u32 = 3;

/// How long to wait between two tries, in seconds.
pub const RETRY_DELAY_SECONDS: u64 = 5;

/// How long to wait between two messages, in milliseconds.
pub const PACING_DELAY_MILLIS: u64 = 500;

/// How many tries an operation gets and how long to wait between them. A policy always
/// allows one try at least.
#[derive(Clone, Copy, Debug)]
pub struct RetryPolicy {
    max_attempts: u32,
    delay_seconds: u64,
}

/// What follows a try.
#[derive(Debug, PartialEq, Eq)]
pub enum Retry<E> {
    /// The try succeeded; it was try number `attempts`.
    Succeeded { attempts: u32 },
    /// The try failed; try number `attempt` is due after `after_seconds`.
    Again { attempt: u32, after_seconds: u64 },
    /// The last try that the policy allows has failed, with `last_error`.
    Exhausted { last_error: E },
}

/// What follows try number `attempt` under a policy of `max_attempts` tries that are
/// `delay_seconds` apart: a success ends the matter at once, a failure asks for the next
/// try while the policy allows one, and the failure of the last try ends it with the
/// error of that try.
pub open spec fn retry_step<E>(
    max_attempts: u32,
    delay_seconds: u64,
    attempt: u32,
    outcome: Result<(), E>,
) -> Retry<E> {
    match outcome {
        Ok(_) => Retry::Succeeded { attempts: attempt },
        Err(error) => if attempt < max_attempts {
            Retry::Again { attempt: (attempt + 1) as u32, after_seconds: delay_seconds }
        } else {
            Retry::Exhausted { last_error: error }
        },
    }
}

impl RetryPolicy {
    #[verifier::type_invariant]
    pub closed spec fn well_formed(&self) -> bool {
        self.max_attempts >= 1
    }

    /// How many tries the policy allows.
    pub closed spec fn max(&self) -> u32 {
        self.max_attempts
    }

    /// How many seconds lie between two tries.
    pub closed spec fn delay(&self) -> u64 {
        self.delay_seconds
    }

    /// A policy of `max_attempts` tries, `delay_seconds` apart; none where `max_attempts`
    /// is zero.
    pub fn new(max_attempts: u32, delay_seconds: u64) -> (policy: Option<RetryPolicy>)
        ensures
            policy is Some <==> max_attempts >= 1,
            policy matches Some(p) ==> p.max() == max_attempts && p.delay() == delay_seconds
                && p.well_formed(),
    {
        if max_attempts >= 1 {
            Some(RetryPolicy { max_attempts, delay_seconds })
        } else {
            None
        }
    }

    /// Three tries, five seconds apart.
    pub fn standard() -> (policy: RetryPolicy)
        ensures
            policy.max() == MAX_RETRY_ATTEMPTS,
            policy.delay() == RETRY_DELAY_SECONDS,
            policy.well_formed(),
    {
        RetryPolicy { max_attempts: MAX_RETRY_ATTEMPTS, delay_seconds: RETRY_DELAY_SECONDS }
    }

    /// How many tries the policy allows.
    pub fn max_attempts(&self) -> (n: u32)
        ensures
            n == self.max(),
            n >= 1,
    {
        proof {
            use_type_invariant(self);
        }
        self.max_attempts
    }

    /// How many seconds lie between two tries.
    pub fn delay_seconds(&self) -> (seconds: u64)
        ensures
            seconds == self.delay(),
    {
        self.delay_seconds
    }

    /// What follows try number `attempt`, which ended with `outcome`.
    pub fn after_attempt<E>(&self, attempt: u32, outcome: Result<(), E>) -> (next: Retry<E>)
        ensures
            next == retry_step(self.max(), self.delay(), attempt, outcome),
    {
        match outcome {
            Ok(_) => Retry::Succeeded { attempts: attempt },
            Err(error) => {
                if attempt < self.max_attempts {
                    Retry::Again { attempt: attempt + 1, after_seconds: self.delay_seconds }
                } else {
                    Retry::Exhausted { last_error: error }
                }
            },
        }
    }
}

/// How the tries numbered `attempt` and up end under a policy of `max_attempts` tries,
/// where `outcomes[i]` is how try number `i + 1` goes if it is made: the number of the
/// try that succeeded, or the error of the last try that the policy allowed. Nothing
/// where the outcomes that are known do not decide it.
pub open spec fn retry_run<E>(max_attempts: u32, outcomes: Seq<Result<(), E>>, attempt: u32) -> Option<
    Result<u32, E>,
>
    decreases outcomes.len() + 1 - attempt,
{
    if attempt < 1 || attempt > outcomes.len() {
        None
    } else {
        match retry_step(max_attempts, 0, attempt, outcomes[attempt - 1]) {
            Retry::Succeeded { attempts } => Some(Ok(attempts)),
            Retry::Again { attempt: next, .. } => retry_run(max_attempts, outcomes, next),
            Retry::Exhausted { last_error } => Some(Err(last_error)),
        }
    }
}

/// The first try that succeeds ends a run with success, however many tries failed
/// before it, provided the policy allows that many.
pub proof fn lemma_first_success_wins<E>(
    max_attempts: u32,
    outcomes: Seq<Result<(), E>>,
    attempt: u32,
    winner: u32,
)
    requires
        1 <= attempt <= winner <= max_attempts,
        winner <= outcomes.len(),
        outcomes[winner - 1] is Ok,
        forall|i: int| attempt - 1 <= i < winner - 1 ==> (#[trigger] outcomes[i]) is Err,
    ensures
        retry_run(max_attempts, outcomes, attempt) == Some(Ok::<u32, E>(winner)),
    decreases winner - attempt,
{
    if attempt < winner {
        assert(outcomes[attempt - 1] is Err);
        lemma_first_success_wins(max_attempts, outcomes, (attempt + 1) as u32, winner);
    }
}

/// A run fails only when every try that the policy allows has failed, and then with
/// the error of the last of them.
pub proof fn lemma_exhausted_after_all_attempts<E>(
    max_attempts: u32,
    outcomes: Seq<Result<(), E>>,
    attempt: u32,
)
    requires
        1 <= attempt <= max_attempts <= outcomes.len(),
        forall|i: int| attempt - 1 <= i < max_attempts ==> (#[trigger] outcomes[i]) is Err,
    ensures
        retry_run(max_attempts, outcomes, attempt) == Some(
            Err::<u32, E>(outcomes[max_attempts - 1]->Err_0),
        ),
    decreases max_attempts - attempt,
{
    assert(outcomes[attempt - 1] is Err);
    if attempt < max_attempts {
        lemma_exhausted_after_all_attempts(max_attempts, outcomes, (attempt + 1) as u32);
    }
}

/// Where one message stands on its way to its recipient.
#[derive(Clone, Copy, Debug, PartialEq, Eq, Structural)]
pub enum DeliveryState {
    /// The message with its map image is being sent.
    SendingPhoto,
    /// The plain text is being sent; this is try number `attempt`.
    SendingText { attempt: u32 },
    /// The message has arrived.
    Delivered,
    /// Every try has failed.
    Abandoned,
}

/// What is to be done next for one message.
#[derive(Clone, Copy, Debug, PartialEq, Eq, Structural)]
pub enum DeliveryAction {
    /// Get the map image and send the message with it.
    SendPhoto,
    /// Send the plain text now.
    SendText,
    /// Wait `seconds`, then send the plain text.
    WaitThenSendText { seconds: u64 },
    /// Nothing more: the message has arrived, or not, as `delivered` says.
    Stop { delivered: bool },
}

/// How the delivery of a message begins: with the map image where one is to go with it,
/// with the first try at the plain text otherwise.
pub open spec fn delivery_start(with_image: bool) -> (DeliveryState, DeliveryAction) {
    if with_image {
        (DeliveryState::SendingPhoto, DeliveryAction::SendPhoto)
    } else {
        (DeliveryState::SendingText { attempt: 1 }, DeliveryAction::SendText)
    }
}

/// How the delivery of a message goes on after a step that succeeded or failed.
///
/// A message with a map image is tried once; if the image cannot be had or the send
/// fails, the plain text goes out instead. The plain text is tried as often as the policy
/// allows, with the policy's delay between tries. A delivery that has ended stays ended.
pub open spec fn delivery_step(
    max_attempts: u32,
    delay_seconds: u64,
    state: DeliveryState,
    succeeded: bool,
) -> (DeliveryState, DeliveryAction) {
    match state {
        DeliveryState::SendingPhoto => if succeeded {
            (DeliveryState::Delivered, DeliveryAction::Stop { delivered: true })
        } else {
            (DeliveryState::SendingText { attempt: 1 }, DeliveryAction::SendText)
        },
        DeliveryState::SendingText { attempt } => if succeeded {
            (DeliveryState::Delivered, DeliveryAction::Stop { delivered: true })
        } else if attempt < max_attempts {
            (
                DeliveryState::SendingText { attempt: (attempt + 1) as u32 },
                DeliveryAction::WaitThenSendText { seconds: delay_seconds },
            )
        } else {
            (DeliveryState::Abandoned, DeliveryAction::Stop { delivered: false })
        },
        DeliveryState::Delivered => (
            DeliveryState::Delivered,
            DeliveryAction::Stop { delivered: true },
        ),
        DeliveryState::Abandoned => (
            DeliveryState::Abandoned,
            DeliveryAction::Stop { delivered: false },
        ),
    }
}

/// Whether `message` is to go out with a map image.
pub open spec fn wants_image(message: MessageView) -> bool {
    message matches MessageView::NewEntity { with_image, .. } && with_image
}

/// Begins the delivery of `message`.
pub fn begin_delivery(message: &Message) -> (next: (DeliveryState, DeliveryAction))
    ensures
        next == delivery_start(wants_image(message@)),
{
    let with_image = match message {
        Message::NewEntity { with_image, .. } => *with_image,
        _ => false,
    };
    if with_image {
        (DeliveryState::SendingPhoto, DeliveryAction::SendPhoto)
    } else {
        (DeliveryState::SendingText { attempt: 1 }, DeliveryAction::SendText)
    }
}

/// Goes on with a delivery after the step it was at succeeded or failed.
pub fn continue_delivery(policy: &RetryPolicy, state: DeliveryState, succeeded: bool) -> (next: (
    DeliveryState,
    DeliveryAction,
))
    ensures
        next == delivery_step(policy.max(), policy.delay(), state, succeeded),
{
    match state {
        DeliveryState::SendingPhoto => {
            if succeeded {
                (DeliveryState::Delivered, DeliveryAction::Stop { delivered: true })
            } else {
                (DeliveryState::SendingText { attempt: 1 }, DeliveryAction::SendText)
            }
        },
        DeliveryState::SendingText { attempt } => {
            if succeeded {
                (DeliveryState::Delivered, DeliveryAction::Stop { delivered: true })
            } else if attempt < policy.max_attempts() {
                (
                    DeliveryState::SendingText { attempt: attempt + 1 },
                    DeliveryAction::WaitThenSendText { seconds: policy.delay_seconds() },
                )
            } else {
                (DeliveryState::Abandoned, DeliveryAction::Stop { delivered: false })
            }
        },
        DeliveryState::Delivered => (
            DeliveryState::Delivered,
            DeliveryAction::Stop { delivered: true },
        ),
        DeliveryState::Abandoned => (
            DeliveryState::Abandoned,
            DeliveryAction::Stop { delivered: false },
        ),
    }
}

/// How a text is to be read by the messaging service.
#[derive(Clone, Copy, Debug, PartialEq, Eq, Structural)]
pub enum TextFormat {
    /// As it stands.
    Plain,
    /// With the service's markup.
    Rich,
}

/// The format of the text of `message`: only the word that a check found nothing
/// carries markup.
pub fn text_format(message: &Message) -> (format: TextFormat)
    ensures
        format == (if message@ is NoChange {
            TextFormat::Rich
        } else {
            TextFormat::Plain
        }),
{
    match message {
        Message::NoChange => TextFormat::Rich,
        _ => TextFormat::Plain,
    }
}

} // verus!
