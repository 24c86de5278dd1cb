//! What a security key's answers mean: errors, the choice among several keys, and the hmac-secret
//! output.

use vstd::prelude::*;
use vstd::string::*;

use crate::crypto::{array_32, random_bytes, SecretKey};
use crate::text::{
    a_part_stands_between, bytes_to_vec, contains, has_part, integer, integer_text,
};
use crate::vault::{Unlock, UnlockModel};

verus! {

/// The relying party that every credential belongs to.
pub const RP_ID: &'static str = "fido2kpxc";

/// Why a security key did not do its part.
#[derive(Debug)]
pub enum FidoError {
    NoDevice,
    MultipleDevices,
    WrongPin { retries: Option<i32> },
    PinBlocked,
    PinAuthBlocked,
    Timeout,
    NotEnrolled,
    AlreadyEnrolled,
    Other(String),
}

/// A [`FidoError`] with its text as characters.
pub enum FidoFault {
    NoDevice,
    MultipleDevices,
    WrongPin { retries: Option<i32> },
    PinBlocked,
    PinAuthBlocked,
    Timeout,
    NotEnrolled,
    AlreadyEnrolled,
    Other(Seq<char>),
}

impl View for FidoError {
    type V = FidoFault;

    open spec fn view(&self) -> FidoFault {
        match *self {
            FidoError::NoDevice => FidoFault::NoDevice,
            FidoError::MultipleDevices => FidoFault::MultipleDevices,
            FidoError::WrongPin { retries } => FidoFault::WrongPin { retries },
            FidoError::PinBlocked => FidoFault::PinBlocked,
            FidoError::PinAuthBlocked => FidoFault::PinAuthBlocked,
            FidoError::Timeout => FidoFault::Timeout,
            FidoError::NotEnrolled => FidoFault::NotEnrolled,
            FidoError::AlreadyEnrolled => FidoFault::AlreadyEnrolled,
            FidoError::Other(text) => FidoFault::Other(text@),
        }
    }
}

impl FidoFault {
    /// The error in words, as the user sees it.
    pub open spec fn words(self) -> Seq<char> {
        match self {
            FidoFault::NoDevice => "Insert your security key."@,
            FidoFault::MultipleDevices => "Remove all security keys but one."@,
            FidoFault::WrongPin { retries: Some(n) } => "Wrong PIN. "@ + integer_text(n as int)
                + " tries left."@,
            FidoFault::WrongPin { retries: None } => "Wrong PIN."@,
            FidoFault::PinBlocked =>
                "The FIDO2 PIN is blocked. Only a FIDO2 reset with the vendor's tool recovers the key, and it erases all FIDO2 credentials. Use a backup key."@,
            FidoFault::PinAuthBlocked =>
                "Too many wrong PINs in a row. Remove and reinsert the security key."@,
            FidoFault::Timeout => "No touch detected. Try again."@,
            FidoFault::NotEnrolled => "This security key is not enrolled in the vault."@,
            FidoFault::AlreadyEnrolled => "This security key is already enrolled."@,
            FidoFault::Other(text) => text,
        }
    }
}

impl FidoError {
    /// The error in words, as the user sees it.
    pub fn message(&self) -> (s: String)
        ensures
            s@ == self@.words(),
    {
        match self {
            FidoError::NoDevice => "Insert your security key.".to_owned(),
            FidoError::MultipleDevices => "Remove all security keys but one.".to_owned(),
            FidoError::WrongPin { retries: Some(n) } => {
                let mut s = "Wrong PIN. ".to_owned();
                s.append(integer(*n as i64).as_str());
                s.append(" tries left.");
                s
            },
            FidoError::WrongPin { retries: None } => "Wrong PIN.".to_owned(),
            FidoError::PinBlocked =>
                "The FIDO2 PIN is blocked. Only a FIDO2 reset with the vendor's tool recovers the key, and it erases all FIDO2 credentials. Use a backup key.".to_owned(),
            FidoError::PinAuthBlocked =>
                "Too many wrong PINs in a row. Remove and reinsert the security key.".to_owned(),
            FidoError::Timeout => "No touch detected. Try again.".to_owned(),
            FidoError::NotEnrolled => "This security key is not enrolled in the vault.".to_owned(),
            FidoError::AlreadyEnrolled => "This security key is already enrolled.".to_owned(),
            FidoError::Other(text) => text.clone(),
        }
    }
}

/// What an error text, which carries the CTAP status name, means to the user.
pub open spec fn classified(text: Seq<char>) -> FidoFault {
    if has_part(text, "FIDO device not found"@) {
        FidoFault::NoDevice
    } else if has_part(text, "Multiple FIDO devices"@) {
        FidoFault::MultipleDevices
    } else if has_part(text, "CTAP2_ERR_PIN_INVALID"@) {
        FidoFault::WrongPin { retries: None }
    } else if has_part(text, "CTAP2_ERR_PIN_BLOCKED"@) {
        FidoFault::PinBlocked
    } else if has_part(text, "CTAP2_ERR_PIN_AUTH_BLOCKED"@) {
        FidoFault::PinAuthBlocked
    } else if has_part(text, "CTAP2_ERR_USER_ACTION_TIMEOUT"@) || has_part(
        text,
        "CTAP2_ERR_ACTION_TIMEOUT"@,
    ) {
        FidoFault::Timeout
    } else if has_part(text, "CTAP2_ERR_NO_CREDENTIALS"@) {
        FidoFault::NotEnrolled
    } else if has_part(text, "CTAP2_ERR_CREDENTIAL_EXCLUDED"@) {
        FidoFault::AlreadyEnrolled
    } else {
        FidoFault::Other(text)
    }
}

/// Maps a security key's error text, which carries the CTAP status name, to the cases that the user
/// interface handles.
pub fn classify(text: &str) -> (error: FidoError)
    ensures
        error@ == classified(text@),
{
    if contains(text, "FIDO device not found") {
        FidoError::NoDevice
    } else if contains(text, "Multiple FIDO devices") {
        FidoError::MultipleDevices
    } else if contains(text, "CTAP2_ERR_PIN_INVALID") {
        FidoError::WrongPin { retries: None }
    } else if contains(text, "CTAP2_ERR_PIN_BLOCKED") {
        FidoError::PinBlocked
    } else if contains(text, "CTAP2_ERR_PIN_AUTH_BLOCKED") {
        FidoError::PinAuthBlocked
    } else if contains(text, "CTAP2_ERR_USER_ACTION_TIMEOUT") {
        FidoError::Timeout
    } else if contains(text, "CTAP2_ERR_ACTION_TIMEOUT") {
        // Some authenticators report a touch timeout with this older status name.
        FidoError::Timeout
    } else if contains(text, "CTAP2_ERR_NO_CREDENTIALS") {
        FidoError::NotEnrolled
    } else if contains(text, "CTAP2_ERR_CREDENTIAL_EXCLUDED") {
        FidoError::AlreadyEnrolled
    } else {
        FidoError::Other(text.to_owned())
    }
}

/// A wrong PIN with the number of tries that the key reports. Other errors stay as they are.
pub fn with_retries(error: FidoError, retries: Option<i32>) -> (told: FidoError)
    ensures
        told@ == (match error@ {
            FidoFault::WrongPin { retries: unknown } => FidoFault::WrongPin { retries },
            other => other,
        }),
{
    match error {
        FidoError::WrongPin { .. } => FidoError::WrongPin { retries },
        other => other,
    }
}

/// How to choose among the security keys that are plugged in.
#[derive(Debug, Clone, Copy, PartialEq, Eq, Structural)]
pub enum Selection {
    /// There is no key.
    Missing,
    /// The only key is the one to use.
    Only,
    /// Every key blinks until the user touches one.
    Touch,
}

/// How to choose among `count` security keys.
pub fn selection(count: usize) -> (selection: Selection)
    ensures
        selection == (if count == 0 {
            Selection::Missing
        } else if count == 1 {
            Selection::Only
        } else {
            Selection::Touch
        }),
{
    if count == 0 {
        Selection::Missing
    } else if count == 1 {
        Selection::Only
    } else {
        Selection::Touch
    }
}

/// The answer of a blinking key: its position, and its error text unless it was touched.
#[derive(Debug)]
pub struct Answer {
    pub index: usize,
    pub result: Result<(), String>,
}

/// The key that was touched, and the keys to cancel, so that they stop blinking.
#[derive(Debug)]
pub struct Touched {
    pub index: usize,
    pub cancel: Vec<usize>,
}

/// A choice among several blinking keys, answer by answer.
#[derive(Debug)]
pub struct Selecting {
    count: usize,
    last_error: Option<FidoError>,
}

/// The positions up to `count` other than `index`, in order.
pub open spec fn others(count: nat, index: int) -> Seq<usize> {
    Seq::new(
        if 0 <= index < count {
            (count - 1) as nat
        } else {
            count
        },
        |i: int|
            (if i < index {
                i
            } else {
                i + 1
            }) as usize,
    )
}

impl Selecting {
    /// How many keys blink.
    pub closed spec fn count(self) -> nat {
        self.count as nat
    }

    /// What the last key that gave up said.
    pub closed spec fn last_error(self) -> Option<FidoFault> {
        match self.last_error {
            Some(error) => Some(error@),
            None => None,
        }
    }

    /// Starts with `count` blinking keys.
    pub fn new(count: usize) -> (selecting: Selecting)
        ensures
            selecting.count() == count,
            selecting.last_error() is None,
    {
        Selecting { count, last_error: None }
    }

    /// Takes the next answer. The first touch decides.
    pub fn answer(&mut self, answer: Answer) -> (touched: Option<Touched>)
        requires
            answer.index < old(self).count(),
        ensures
            final(self).count() == old(self).count(),
            touched is Some <==> answer.result is Ok,
            touched matches Some(t) ==> t.index == answer.index && t.cancel@ == others(
                old(self).count(),
                answer.index as int,
            ) && final(self).last_error() == old(self).last_error(),
            answer.result matches Err(text) ==> final(self).last_error() == Some(
                classified(text@),
            ),
    {
        match answer.result {
            Ok(()) => {
                let index: usize = answer.index;
                let mut cancel: Vec<usize> = Vec::new();
                for other in 0..self.count
                    invariant
                        index < self.count,
                        cancel@.len() == (if other <= index {
                            other as int
                        } else {
                            other - 1
                        }),
                        forall|i: int|
                            0 <= i < cancel@.len() ==> (#[trigger] cancel@[i]) == others(
                                self.count as nat,
                                index as int,
                            )[i],
                {
                    if other != index {
                        cancel.push(other);
                    }
                }
                assert(cancel@ =~= others(self.count as nat, index as int));
                Some(Touched { index, cancel })
            },
            Err(text) => {
                self.last_error = Some(classify(text.as_str()));
                None
            },
        }
    }

    /// What it means when every key gave up. A key without authenticatorSelection (CTAP 2.0) cannot
    /// take part, so the user falls back to one key.
    pub fn give_up(self) -> (error: FidoError)
        ensures
            error@ == (if self.last_error() == Some(FidoFault::Timeout) {
                FidoFault::Timeout
            } else {
                FidoFault::MultipleDevices
            }),
    {
        match self.last_error {
            Some(FidoError::Timeout) => FidoError::Timeout,
            _ => FidoError::MultipleDevices,
        }
    }
}

/// An assertion: the credential that answered, if the key named it, and for each extension its
/// hmac-secret output, if it is one.
pub struct Assertion {
    pub cred_id: Vec<u8>,
    pub outputs: Vec<Option<SecretKey>>,
}

/// The first output among the extensions.
pub open spec fn first_output(outputs: Seq<Option<SecretKey>>) -> Option<Seq<u8>>
    decreases outputs.len(),
{
    if outputs.len() == 0 {
        None
    } else {
        match outputs[0] {
            Some(output) => Some(output@),
            None => first_output(outputs.skip(1)),
        }
    }
}

/// What an assertion answers to a request that allows `allowed` credentials.
pub open spec fn unlocked(assertion: Option<Assertion>, allowed: Seq<Seq<u8>>) -> Result<
    UnlockModel,
    FidoFault,
> {
    match assertion {
        None => Err(FidoFault::Other("The key returned no assertion"@)),
        Some(assertion) => match first_output(assertion.outputs@) {
            None => Err(FidoFault::Other("The key returned no hmac-secret output"@)),
            Some(output) => Ok(
                UnlockModel {
                    cred_id: if assertion.cred_id@.len() == 0 && allowed.len() == 1 {
                        allowed[0]
                    } else {
                        assertion.cred_id@
                    },
                    output,
                },
            ),
        },
    }
}

/// The bytes of each credential.
pub open spec fn cred_bytes(cred_ids: Seq<&[u8]>) -> Seq<Seq<u8>> {
    cred_ids.map_values(|id: &[u8]| id@)
}

/// Reads the hmac-secret output out of a key's first assertion.
pub fn unlock_from(assertion: Option<Assertion>, cred_ids: &[&[u8]]) -> (r: Result<
    Unlock,
    FidoError,
>)
    ensures
        r matches Ok(unlock) ==> unlocked(assertion, cred_bytes(cred_ids@)) == Ok::<
            UnlockModel,
            FidoFault,
        >(unlock@),
        r matches Err(e) ==> unlocked(assertion, cred_bytes(cred_ids@)) == Err::<
            UnlockModel,
            FidoFault,
        >(e@),
{
    let assertion = match assertion {
        Some(assertion) => assertion,
        None => return Err(FidoError::Other("The key returned no assertion".to_owned())),
    };
    let mut found: Option<SecretKey> = None;
    let mut rest = assertion.outputs;
    let ghost all = rest@;
    while found.is_none() && rest.len() > 0
        invariant
            match found {
                Some(output) => first_output(all) == Some(output@),
                None => first_output(all) == first_output(rest@),
            },
        decreases rest@.len(),
    {
        let ghost had = rest@;
        found = rest.remove(0);
        assert(rest@ =~= had.skip(1));
    }
    let output = match found {
        Some(output) => output,
        None => {
            return Err(FidoError::Other("The key returned no hmac-secret output".to_owned()));
        },
    };
    // CTAP lets the key omit the credential ID when the allow list has one entry.
    let cred_id = if assertion.cred_id.len() == 0 && cred_ids.len() == 1 {
        bytes_to_vec(cred_ids[0])
    } else {
        assertion.cred_id
    };
    Ok(Unlock { cred_id, output })
}

/// A new credential is usable only if its key confirms hmac-secret. Each extension states what it
/// confirms, if it is hmac-secret.
pub fn check_attestation(extensions: &[Option<bool>]) -> (r: Result<(), FidoError>)
    ensures
        r is Ok <==> extensions@.contains(Some(true)),
        r matches Err(e) ==> e@ == FidoFault::Other("This key does not support hmac-secret"@),
{
    for i in 0..extensions.len()
        invariant
            forall|j: int| 0 <= j < i ==> extensions@[j] != Some(true),
    {
        if let Some(true) = extensions[i] {
            assert(extensions@[i as int] == Some(true));
            return Ok(());
        }
    }
    Err(FidoError::Other("This key does not support hmac-secret".to_owned()))
}

/// A random challenge for one request.
pub fn challenge() -> (r: Result<[u8; 32], FidoError>)
    ensures
        r matches Err(e) ==> e@ matches FidoFault::Other(text) && "The random source failed: "@.is_prefix_of(
            text,
        ),
{
    challenge_with(random_bytes(32))
}

/// The challenge that was drawn for one request, or why the draw failed.
pub fn challenge_with(draw: Result<Vec<u8>, String>) -> (r: Result<[u8; 32], FidoError>)
    requires
        draw matches Ok(bytes) ==> bytes@.len() == 32,
    ensures
        match draw {
            Ok(bytes) => r matches Ok(challenge) && challenge@ == bytes@,
            Err(reason) => r matches Err(e) && e@ == FidoFault::Other(
                "The random source failed: "@ + reason@,
            ),
        },
{
    match draw {
        Ok(bytes) => Ok(array_32(&bytes)),
        Err(reason) => {
            let mut s = "The random source failed: ".to_owned();
            s.append(reason.as_str());
            Err(FidoError::Other(s))
        },
    }
}

/// The key to use among `devices`, given every answer in order. The only key is used at once. With
/// several, `opened` of them blink, and the first one touched is used.
pub fn select(devices: usize, opened: usize, answers: Vec<Answer>) -> (r: Result<
    Touched,
    FidoError,
>)
    requires
        forall|i: int| 0 <= i < answers@.len() ==> (#[trigger] answers@[i]).index < opened,
    ensures
        match r {
            Ok(touched) => if devices == 1 {
                touched.index == 0 && touched.cancel@.len() == 0
            } else {
                devices > 1 && exists|i: int|
                    0 <= i < answers@.len() && #[trigger] first_touch(answers@, i) && touched.index
                        == answers@[i].index && touched.cancel@ == others(
                        opened as nat,
                        answers@[i].index as int,
                    )
            },
            Err(e) => if devices == 0 {
                e@ == FidoFault::NoDevice
            } else {
                devices > 1 && (forall|i: int|
                    0 <= i < answers@.len() ==> (#[trigger] answers@[i]).result is Err) && e@ == (
                if answers@.len() > 0 && classified(answers@.last().result->Err_0@)
                    == FidoFault::Timeout {
                    FidoFault::Timeout
                } else {
                    FidoFault::MultipleDevices
                })
            },
        },
{
    match selection(devices) {
        Selection::Missing => return Err(FidoError::NoDevice),
        Selection::Only => return Ok(Touched { index: 0, cancel: Vec::new() }),
        Selection::Touch => {},
    }
    let ghost all = answers@;
    let mut rest = answers;
    let length: usize = rest.len();
    let mut selecting = Selecting::new(opened);
    for i in 0..length
        invariant
            all.len() == length,
            all == answers@,
            devices > 1,
            rest@ =~= all.skip(i as int),
            selecting.count() == opened,
            forall|j: int| 0 <= j < all.len() ==> (#[trigger] all[j]).index < opened,
            forall|j: int| 0 <= j < i ==> (#[trigger] all[j]).result is Err,
            selecting.last_error() == (if i == 0 {
                None
            } else {
                Some(classified(all[i - 1].result->Err_0@))
            }),
    {
        assert(rest@[0] == all[i as int]);
        let answer = rest.remove(0);
        if let Some(touched) = selecting.answer(answer) {
            assert(first_touch(all, i as int));
            return Ok(touched);
        }
    }
    Err(selecting.give_up())
}

/// The first answer that is a touch.
pub open spec fn first_touch(answers: Seq<Answer>, i: int) -> bool {
    &&& answers[i].result is Ok
    &&& forall|j: int| 0 <= j < i ==> (#[trigger] answers[j]).result is Err
}

/// A status name in an error text decides what the error means, and a text without any stays as it is.
/// Of several names, the first one below decides.
pub proof fn a_status_name_decides(text: Seq<char>)
    ensures
        ({
            let missing = has_part(text, "FIDO device not found"@);
            let several = has_part(text, "Multiple FIDO devices"@);
            let wrong = has_part(text, "CTAP2_ERR_PIN_INVALID"@);
            let blocked = has_part(text, "CTAP2_ERR_PIN_BLOCKED"@);
            let paused = has_part(text, "CTAP2_ERR_PIN_AUTH_BLOCKED"@);
            let late = has_part(text, "CTAP2_ERR_USER_ACTION_TIMEOUT"@) || has_part(
                text,
                "CTAP2_ERR_ACTION_TIMEOUT"@,
            );
            let unknown = has_part(text, "CTAP2_ERR_NO_CREDENTIALS"@);
            let known = has_part(text, "CTAP2_ERR_CREDENTIAL_EXCLUDED"@);
            let no_key = missing || several;
            let pin = wrong || blocked || paused;
            &&& classified(text) is NoDevice <==> missing
            &&& classified(text) is MultipleDevices <==> several && !missing
            &&& classified(text) == (FidoFault::WrongPin { retries: None }) <==> wrong && !no_key
            &&& classified(text) is WrongPin <==> wrong && !no_key
            &&& classified(text) is PinBlocked <==> blocked && !no_key && !wrong
            &&& classified(text) is PinAuthBlocked <==> paused && !no_key && !wrong && !blocked
            &&& classified(text) is Timeout <==> late && !no_key && !pin
            &&& classified(text) is NotEnrolled <==> unknown && !no_key && !pin && !late
            &&& classified(text) is AlreadyEnrolled <==> known && !no_key && !pin && !late
                && !unknown
            &&& classified(text) is Other ==> classified(text) == FidoFault::Other(text)
        }),
{
}

/// Once a key was touched, every other key is cancelled, each once, and the touched one is not.
pub proof fn every_other_key_is_cancelled(count: nat, index: int, i: int, j: int)
    requires
        0 <= index < count <= usize::MAX,
    ensures
        others(count, index).len() == count - 1,
        0 <= i < count && i != index ==> others(count, index).contains(i as usize),
        !others(count, index).contains(index as usize),
        0 <= i < j < count - 1 ==> others(count, index)[i] < others(count, index)[j],
        0 <= i < count - 1 ==> others(count, index)[i] < count,
{
    let cancelled = others(count, index);
    if 0 <= i < count && i != index {
        let at = if i < index {
            i
        } else {
            i - 1
        };
        assert(cancelled[at] == i as usize);
    }
}

/// The first extension with an output yields it, whatever follows. The credential is the one that the
/// key named, or the only one allowed if the key named none.
pub proof fn the_first_output_unlocks(assertion: Assertion, allowed: Seq<Seq<u8>>, i: int)
    requires
        0 <= i < assertion.outputs@.len(),
        assertion.outputs@[i] is Some,
        forall|j: int| 0 <= j < i ==> (#[trigger] assertion.outputs@[j]) is None,
    ensures
        unlocked(Some(assertion), allowed) matches Ok(unlock) && unlock.output
            == assertion.outputs@[i]->0@ && unlock.cred_id == (if assertion.cred_id@.len() > 0
            || allowed.len() != 1 {
            assertion.cred_id@
        } else {
            allowed[0]
        }),
{
    output_found(assertion.outputs@, i);
}

proof fn output_found(outputs: Seq<Option<SecretKey>>, i: int)
    requires
        0 <= i < outputs.len(),
        outputs[i] is Some,
        forall|j: int| 0 <= j < i ==> (#[trigger] outputs[j]) is None,
    ensures
        first_output(outputs) == Some(outputs[i]->0@),
    decreases outputs.len(),
{
    if i > 0 {
        assert(outputs[0] is None);
        assert(outputs.skip(1)[i - 1] == outputs[i]);
        assert forall|j: int| 0 <= j < i - 1 implies (#[trigger] outputs.skip(1)[j]) is None by {
            assert(outputs.skip(1)[j] == outputs[j + 1]);
        }
        output_found(outputs.skip(1), i - 1);
    }
}

/// Without an assertion, or without an output in any of its extensions, nothing unlocks.
pub proof fn no_output_unlocks_nothing(assertion: Assertion, allowed: Seq<Seq<u8>>)
    ensures
        unlocked(None, allowed) == Err::<UnlockModel, FidoFault>(
            FidoFault::Other("The key returned no assertion"@),
        ),
        (forall|j: int| 0 <= j < assertion.outputs@.len() ==> (#[trigger] assertion.outputs@[j]) is None)
            ==> unlocked(Some(assertion), allowed) == Err::<UnlockModel, FidoFault>(
            FidoFault::Other("The key returned no hmac-secret output"@),
        ),
{
    if forall|j: int|
        0 <= j < assertion.outputs@.len() ==> (#[trigger] assertion.outputs@[j]) is None {
        no_output_found(assertion.outputs@);
    }
}

proof fn no_output_found(outputs: Seq<Option<SecretKey>>)
    requires
        forall|j: int| 0 <= j < outputs.len() ==> (#[trigger] outputs[j]) is None,
    ensures
        first_output(outputs) is None,
    decreases outputs.len(),
{
    if outputs.len() > 0 {
        assert(outputs[0] is None);
        assert forall|j: int| 0 <= j < outputs.len() - 1 implies (#[trigger] outputs.skip(
            1,
        )[j]) is None by {
            assert(outputs.skip(1)[j] == outputs[j + 1]);
        }
        no_output_found(outputs.skip(1));
    }
}

/// The touch that decides is the earliest one, and there is only one such.
pub proof fn the_earliest_touch_decides(answers: Seq<Answer>, i: int, j: int)
    requires
        0 <= i < answers.len(),
        0 <= j < answers.len(),
    ensures
        first_touch(answers, i) && first_touch(answers, j) ==> i == j,
        first_touch(answers, i) && answers[j].result is Ok ==> i <= j,
        first_touch(answers, i) ==> answers[i].result is Ok,
        answers[i].result is Ok && (forall|k: int|
            0 <= k < i ==> (#[trigger] answers[k]).result is Err) ==> first_touch(answers, i),
{
}

/// A wrong PIN tells how many tries are left, if the key says so, and an unknown error stays in its own
/// words.
pub proof fn a_wrong_pin_tells_the_tries(retries: i32, text: Seq<char>)
    ensures
        has_part((FidoFault::WrongPin { retries: Some(retries) }).words(), integer_text(retries as int)),
        "Wrong PIN."@.is_prefix_of((FidoFault::WrongPin { retries: Some(retries) }).words()),
        "Wrong PIN."@ == (FidoFault::WrongPin { retries: None }).words(),
        FidoFault::Other(text).words() == text,
{
    reveal_strlit("Wrong PIN.");
    reveal_strlit("Wrong PIN. ");
    let digits = integer_text(retries as int);
    a_part_stands_between("Wrong PIN. "@, digits, " tries left."@);
    let words = "Wrong PIN. "@ + digits + " tries left."@;
    assert(words.take(10) =~= "Wrong PIN."@);
}

} // verus!
