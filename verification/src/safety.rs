//! The safety check: validation of an image/device pair and the staged
//! double-confirmation protocol that precedes any destructive write.
//!
//! The confirmation protocol is a state machine. It starts by comparing the image size
//! against the device size: an image that does not fit is rejected at
//! once, before any prompt. Otherwise two independently worded yes/no
//! confirmations are requested in turn, each defaulting to "no"; a
//! negative answer to either one cancels. Only an explicit affirmative
//! answer to both authorizes the write. The caller renders the prompts
//! and feeds the answers back in; the machine decides.

use vstd::prelude::*;

use crate::errors::BurnError;

verus! {

/// One stage of the confirmation protocol.
#[derive(Clone, Copy, Debug, PartialEq, Eq, Structural)]
pub enum Confirmation {
    /// The image is larger than the device: refused before any prompt.
    SizeRejected { image_size: u64, device_size: u64 },
    /// Waiting for the first yes/no confirmation.
    AwaitingFirst { image_size: u64, device_size: u64 },
    /// First answer was affirmative; waiting for the final warning's answer.
    AwaitingSecond { image_size: u64, device_size: u64 },
    /// A confirmation was declined: nothing will be written.
    Cancelled,
    /// Both confirmations were affirmative: the write is authorized.
    Authorized { image_size: u64, device_size: u64 },
}

impl Confirmation {
    /// Open the confirmation protocol for an image of `image_size` bytes and a device of
    /// `device_size` bytes.
    pub open spec fn begin_spec(image_size: u64, device_size: u64) -> Confirmation {
        if image_size > device_size {
            Confirmation::SizeRejected { image_size, device_size }
        } else {
            Confirmation::AwaitingFirst { image_size, device_size }
        }
    }

    pub fn begin(image_size: u64, device_size: u64) -> (s: Confirmation)
        ensures
            s == Self::begin_spec(image_size, device_size),
    {
        if image_size > device_size {
            Confirmation::SizeRejected { image_size, device_size }
        } else {
            Confirmation::AwaitingFirst { image_size, device_size }
        }
    }

    /// The protocol is waiting for a yes/no answer.
    pub open spec fn needs_prompt_spec(self) -> bool {
        self is AwaitingFirst || self is AwaitingSecond
    }

    pub fn needs_prompt(&self) -> (r: bool)
        ensures
            r == self.needs_prompt_spec(),
    {
        match self {
            Confirmation::AwaitingFirst { .. } => true,
            Confirmation::AwaitingSecond { .. } => true,
            _ => false,
        }
    }

    /// The write is authorized: both confirmations were affirmative.
    pub open spec fn authorized_spec(self) -> bool {
        self is Authorized
    }

    pub fn authorized(&self) -> (r: bool)
        ensures
            r == self.authorized_spec(),
    {
        match self {
            Confirmation::Authorized { .. } => true,
            _ => false,
        }
    }

    /// Feed one answer into the protocol. A negative answer at either
    /// stage cancels; an affirmative one advances.
    pub open spec fn answer_spec(self, affirmative: bool) -> Confirmation {
        match self {
            Confirmation::AwaitingFirst { image_size, device_size } => if affirmative {
                Confirmation::AwaitingSecond { image_size, device_size }
            } else {
                Confirmation::Cancelled
            },
            Confirmation::AwaitingSecond { image_size, device_size } => if affirmative {
                Confirmation::Authorized { image_size, device_size }
            } else {
                Confirmation::Cancelled
            },
            _ => self,
        }
    }

    pub fn answer(self, affirmative: bool) -> (s: Confirmation)
        requires
            self.needs_prompt_spec(),
        ensures
            s == self.answer_spec(affirmative),
    {
        match self {
            Confirmation::AwaitingFirst { image_size, device_size } => if affirmative {
                Confirmation::AwaitingSecond { image_size, device_size }
            } else {
                Confirmation::Cancelled
            },
            Confirmation::AwaitingSecond { image_size, device_size } => if affirmative {
                Confirmation::Authorized { image_size, device_size }
            } else {
                Confirmation::Cancelled
            },
            _ => self,
        }
    }
}

/// The state the protocol reaches from `c` when the answers given to its
/// prompts, in order, are `answers`. Stops as soon as no prompt is needed
/// or the answers run out.
pub open spec fn run_protocol(c: Confirmation, answers: Seq<bool>) -> Confirmation
    decreases answers.len(),
{
    if !c.needs_prompt_spec() || answers.len() == 0 {
        c
    } else {
        run_protocol(c.answer_spec(answers[0]), answers.drop_first())
    }
}

/// How many prompts the protocol issues from `c` given `answers`.
pub open spec fn prompts_used(c: Confirmation, answers: Seq<bool>) -> nat
    decreases answers.len(),
{
    if !c.needs_prompt_spec() || answers.len() == 0 {
        0
    } else {
        1 + prompts_used(c.answer_spec(answers[0]), answers.drop_first())
    }
}

/// An image larger than the device is refused outright: whatever answers
/// would have been given, the protocol never prompts and never authorizes.
pub proof fn lemma_oversized_image_refused(image_size: u64, device_size: u64, answers: Seq<bool>)
    requires
        image_size > device_size,
    ensures
        !run_protocol(Confirmation::begin_spec(image_size, device_size), answers).authorized_spec(),
        prompts_used(Confirmation::begin_spec(image_size, device_size), answers) == 0,
{
}

/// Declining the first confirmation cancels at once: exactly one prompt is
/// issued — the second is never evaluated — and the protocol does not authorize.
pub proof fn lemma_first_decline_cancels(image_size: u64, device_size: u64, answers: Seq<bool>)
    requires
        image_size <= device_size,
        answers.len() >= 1,
        !answers[0],
    ensures
        run_protocol(Confirmation::begin_spec(image_size, device_size), answers)
            == Confirmation::Cancelled,
        prompts_used(Confirmation::begin_spec(image_size, device_size), answers) == 1,
{
    let s0 = Confirmation::begin_spec(image_size, device_size);
    let rest = answers.drop_first();
    assert(s0.answer_spec(answers[0]) == Confirmation::Cancelled);
    assert(run_protocol(s0, answers) == run_protocol(Confirmation::Cancelled, rest));
    assert(run_protocol(Confirmation::Cancelled, rest) == Confirmation::Cancelled);
    assert(prompts_used(s0, answers) == 1 + prompts_used(Confirmation::Cancelled, rest));
    assert(prompts_used(Confirmation::Cancelled, rest) == 0);
}

/// Declining the second confirmation cancels: two prompts are issued and
/// the protocol does not authorize.
pub proof fn lemma_second_decline_cancels(image_size: u64, device_size: u64, answers: Seq<bool>)
    requires
        image_size <= device_size,
        answers.len() >= 2,
        answers[0],
        !answers[1],
    ensures
        run_protocol(Confirmation::begin_spec(image_size, device_size), answers)
            == Confirmation::Cancelled,
        prompts_used(Confirmation::begin_spec(image_size, device_size), answers) == 2,
{
    let s0 = Confirmation::begin_spec(image_size, device_size);
    let rest1 = answers.drop_first();
    let rest2 = rest1.drop_first();
    let s1 = s0.answer_spec(answers[0]);
    assert(rest1[0] == answers[1]);
    let s2 = s1.answer_spec(rest1[0]);
    assert(s2 == Confirmation::Cancelled);
    assert(run_protocol(s0, answers) == run_protocol(s1, rest1));
    assert(run_protocol(s1, rest1) == run_protocol(s2, rest2));
    assert(run_protocol(s2, rest2) == s2);
    assert(prompts_used(s0, answers) == 1 + prompts_used(s1, rest1));
    assert(prompts_used(s1, rest1) == 1 + prompts_used(s2, rest2));
    assert(prompts_used(s2, rest2) == 0);
}

/// Affirming both confirmations authorizes the write (which is possible
/// only for an image that fits on the device).
pub proof fn lemma_double_affirmative_authorizes(
    image_size: u64,
    device_size: u64,
    answers: Seq<bool>,
)
    requires
        image_size <= device_size,
        answers.len() >= 2,
        answers[0],
        answers[1],
    ensures
        run_protocol(Confirmation::begin_spec(image_size, device_size), answers)
            == (Confirmation::Authorized { image_size, device_size }),
        prompts_used(Confirmation::begin_spec(image_size, device_size), answers) == 2,
{
    let s0 = Confirmation::begin_spec(image_size, device_size);
    let rest1 = answers.drop_first();
    let rest2 = rest1.drop_first();
    let s1 = s0.answer_spec(answers[0]);
    assert(rest1[0] == answers[1]);
    let s2 = s1.answer_spec(rest1[0]);
    assert(s2 == (Confirmation::Authorized { image_size, device_size }));
    assert(run_protocol(s0, answers) == run_protocol(s1, rest1));
    assert(run_protocol(s1, rest1) == run_protocol(s2, rest2));
    assert(run_protocol(s2, rest2) == s2);
    assert(prompts_used(s0, answers) == 1 + prompts_used(s1, rest1));
    assert(prompts_used(s1, rest1) == 1 + prompts_used(s2, rest2));
    assert(prompts_used(s2, rest2) == 0);
}

/// The protocol authorizes only an image that fits on the device, and only
/// through the `Authorized` stage.
pub proof fn lemma_authorized_implies_fit(c: Confirmation, answers: Seq<bool>)
    requires
        run_protocol(c, answers).authorized_spec(),
        c is AwaitingFirst || c is SizeRejected,
        c is AwaitingFirst ==> c->AwaitingFirst_image_size <= c->AwaitingFirst_device_size,
    ensures
        c is AwaitingFirst,
        run_protocol(c, answers) == (Confirmation::Authorized {
            image_size: c->AwaitingFirst_image_size,
            device_size: c->AwaitingFirst_device_size,
        }),
    decreases answers.len(),
{
    if c is AwaitingFirst && answers.len() > 0 {
        let next = c.answer_spec(answers[0]);
        if answers[0] {
            lemma_await_second_outcome(next, answers.drop_first());
        } else {
            assert(run_protocol(next, answers.drop_first()) == next);
        }
    }
}

proof fn lemma_await_second_outcome(c: Confirmation, answers: Seq<bool>)
    requires
        c is AwaitingSecond,
    ensures
        run_protocol(c, answers).authorized_spec() ==> run_protocol(c, answers)
            == (Confirmation::Authorized {
            image_size: c->AwaitingSecond_image_size,
            device_size: c->AwaitingSecond_device_size,
        }),
{
    if answers.len() > 0 {
        let next = c.answer_spec(answers[0]);
        assert(run_protocol(next, answers.drop_first()) == next);
    }
}

/// Run the whole protocol against a fixed list of answers, as an
/// interactive caller would against a user: prompts are consumed from
/// `answers` in order, and any answer past the protocol's end is ignored.
/// Returns whether the write was authorized and how many prompts were put.
pub fn confirm_scripted(image_size: u64, device_size: u64, answers: &Vec<bool>) -> (r: (
    bool,
    usize,
))
    ensures
        r.0 == run_protocol(Confirmation::begin_spec(image_size, device_size), answers@)
            .authorized_spec(),
        r.1 == prompts_used(Confirmation::begin_spec(image_size, device_size), answers@),
{
    let mut state = Confirmation::begin(image_size, device_size);
    let mut i: usize = 0;
    proof {
        assert(answers@.subrange(0, answers@.len() as int) =~= answers@);
    }
    loop
        invariant
            0 <= i <= answers@.len(),
            run_protocol(state, answers@.subrange(i as int, answers@.len() as int))
                == run_protocol(Confirmation::begin_spec(image_size, device_size), answers@),
            i + prompts_used(state, answers@.subrange(i as int, answers@.len() as int))
                == prompts_used(Confirmation::begin_spec(image_size, device_size), answers@),
        ensures
            state == run_protocol(Confirmation::begin_spec(image_size, device_size), answers@),
            i == prompts_used(Confirmation::begin_spec(image_size, device_size), answers@),
        decreases answers@.len() - i,
    {
        if !state.needs_prompt() {
            proof {
                let rest = answers@.subrange(i as int, answers@.len() as int);
                assert(run_protocol(state, rest) == state);
                assert(prompts_used(state, rest) == 0);
            }
            break;
        }
        if i >= answers.len() {
            proof {
                let rest = answers@.subrange(i as int, answers@.len() as int);
                assert(rest.len() == 0);
                assert(run_protocol(state, rest) == state);
                assert(prompts_used(state, rest) == 0);
            }
            // no more scripted answers: the protocol stops unanswered
            return (false, i);
        }
        let ghost rest = answers@.subrange(i as int, answers@.len() as int);
        proof {
            assert(rest[0] == answers@[i as int]);
            assert(rest.drop_first() =~= answers@.subrange(i + 1, answers@.len() as int));
        }
        let a = answers[i];
        state = state.answer(a);
        i = i + 1;
    }
    (state.authorized(), i)
}

/// The error a finished protocol reports, if any: a size mismatch for a
/// rejected image/device pair, a cancellation for a declined
/// confirmation. An authorized or still-waiting protocol reports none.
pub fn confirmation_error(c: &Confirmation) -> (r: Option<BurnError>)
    ensures
        *c matches Confirmation::SizeRejected { image_size, device_size } ==> r == Some(
            BurnError::SizeMismatch { image_size, device_size },
        ),
        *c is Cancelled ==> r == Some(BurnError::UserCancelled),
        !(*c is SizeRejected) && !(*c is Cancelled) ==> r is None,
{
    match c {
        Confirmation::SizeRejected { image_size, device_size } => Some(
            BurnError::SizeMismatch { image_size: *image_size, device_size: *device_size },
        ),
        Confirmation::Cancelled => Some(BurnError::UserCancelled),
        _ => None,
    }
}

} // verus!
