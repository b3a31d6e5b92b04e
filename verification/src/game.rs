//! The life of a session: opening it, asking for its status, and guessing.

use crate::digest::{digest, digest_of};
use crate::error::AppError;
use crate::random::{is_alphanumeric_text, random_text, sample_id};
pub use crate::scoring::{check_guess, GuessResult, Match};
use crate::scoring::evaluation;
use crate::store::{keys_of, session_keys, StoreFailure, StoreRequest, StoreRequestView};
use rand::rngs::StdRng;
use vstd::prelude::*;
use vstd::utf8::encode_utf8;

verus! {

/// The number of guesses a session allows.
pub const MAX_GUESS: usize = 64;

/// The length of a password, and of every guess, in bytes.
pub const PASSWORD_LENGTH: usize = 8;

/// The length of a salt in bytes.
pub const SALT_LENGTH: usize = 8;

/// The number of seconds after which a stored field expires.
pub const GAME_EXPIRE: usize = 86_400;

/// What a player may know of a running session.
#[derive(Debug)]
pub struct GameInfo {
    pub salt: String,
    pub guess_count: usize,
}

/// What a player is told of a session that was just opened.
#[derive(Debug)]
pub struct GameCreationInfo {
    pub salt: String,
    pub guess_count: usize,
    pub id: [u8; 16],
}

/// How far a guess has come.
#[derive(Debug)]
pub enum GuessStage {
    /// Nothing has been asked of the store yet.
    Submitted,
    /// The store has answered the request to count the guess: with the new
    /// guess count, the salt and the password digest, each as far as it is
    /// there.
    Counted(Result<(Option<usize>, Option<String>, Option<String>), StoreFailure>),
    /// The store has answered the request to delete the session.
    Deleted(Result<(), StoreFailure>),
}

/// What is to happen next with a guess.
#[derive(Debug)]
pub enum GuessStep {
    /// Carry the request to the store and come back with its answer.
    Ask(StoreRequest),
    /// Answer the player.
    Finish(Result<GuessResult, AppError>),
}

/// Whether `out` is the verdict on the guess digest `guess` against the
/// stored digest `password`: a bad request where their lengths differ, the
/// evaluation otherwise.
pub open spec fn is_verdict(
    out: Result<GuessResult, AppError>,
    guess: Seq<char>,
    password: Seq<char>,
) -> bool {
    match out {
        Ok(result) => encode_utf8(guess).len() == encode_utf8(password).len() && result@
            == evaluation(guess, password),
        Err(error) => encode_utf8(guess).len() != encode_utf8(password).len() && error
            == AppError::BadRequest,
    }
}

/// The request that asks the store for the status of session `game_id`.
pub fn status_request(game_id: &[u8; 16]) -> (request: StoreRequest)
    ensures
        request@ == (StoreRequestView::Read {
            guess_count_key: keys_of(game_id@).guess_count,
            salt_key: keys_of(game_id@).salt,
        }),
{
    let keys = session_keys(game_id);
    StoreRequest::Read { guess_count_key: keys.guess_count, salt_key: keys.salt }
}

/// The status of a session, from the store's answer to its status request.
pub fn get_game_info(answer: Result<(Option<usize>, Option<String>), StoreFailure>) -> (out: Result<
    GameInfo,
    AppError,
>)
    ensures
        match answer {
            Ok((Some(guess_count), Some(salt))) => out == Ok::<GameInfo, AppError>(
                (GameInfo { salt, guess_count }),
            ),
            Ok(_) => out == Err::<GameInfo, AppError>(AppError::GameNotFound),
            Err(_) => out == Err::<GameInfo, AppError>(AppError::InternalServerError),
        },
{
    match answer {
        Ok((Some(guess_count), Some(salt))) => Ok(GameInfo { salt, guess_count }),
        Ok(_) => Err(AppError::GameNotFound),
        Err(_) => Err(AppError::InternalServerError),
    }
}

/// The session with identifier `id`, salt `salt` and password `password`:
/// what the player is told of it, and the request that stores it.
pub fn open_game(id: [u8; 16], salt: String, password: &str) -> (out: (
    GameCreationInfo,
    StoreRequest,
))
    ensures
        out.0 == (GameCreationInfo { salt, guess_count: 0, id }),
        out.1@ == (StoreRequestView::Create {
            keys: keys_of(id@),
            guess_count: 0,
            salt: salt@,
            password_digest: digest_of(password@, salt@),
            ttl: GAME_EXPIRE as nat,
        }),
{
    let password_digest = digest(password, salt.as_str());
    let request = StoreRequest::Create {
        keys: session_keys(&id),
        guess_count: 0,
        salt: salt.clone(),
        password_digest,
        ttl: GAME_EXPIRE,
    };
    (GameCreationInfo { salt, guess_count: 0, id }, request)
}

/// Opens a session with a random identifier, salt and password.
pub fn create_game(rng: &mut StdRng) -> (out: (GameCreationInfo, StoreRequest))
    ensures
        out.0.guess_count == 0,
        is_alphanumeric_text(out.0.salt@, SALT_LENGTH as nat),
        exists|password: Seq<char>|
            is_alphanumeric_text(password, PASSWORD_LENGTH as nat) && out.1@ == (
            StoreRequestView::Create {
                keys: keys_of(out.0.id@),
                guess_count: 0,
                salt: out.0.salt@,
                password_digest: #[trigger] digest_of(password, out.0.salt@),
                ttl: GAME_EXPIRE as nat,
            }),
{
    let salt = random_text(rng, SALT_LENGTH);
    let password = random_text(rng, PASSWORD_LENGTH);
    let id = sample_id(rng);
    let out = open_game(id, salt, password.as_str());
    assert(out.1@ == (StoreRequestView::Create {
        keys: keys_of(out.0.id@),
        guess_count: 0,
        salt: out.0.salt@,
        password_digest: digest_of(password@, out.0.salt@),
        ttl: GAME_EXPIRE as nat,
    }));
    out
}

/// The answer to the player once the store has answered the request that
/// stores the session.
pub fn game_created(info: GameCreationInfo, answer: Result<(), StoreFailure>) -> (out: Result<
    GameCreationInfo,
    AppError,
>)
    ensures
        out == match answer {
            Ok(_) => Ok::<GameCreationInfo, AppError>(info),
            Err(_) => Err::<GameCreationInfo, AppError>(AppError::InternalServerError),
        },
{
    match answer {
        Ok(_) => Ok(info),
        Err(_) => Err(AppError::InternalServerError),
    }
}

/// The verdict on a guess digest against the stored password digest.
pub fn evaluate_guess(guess_digest: String, password_digest: String) -> (out: Result<
    GuessResult,
    AppError,
>)
    ensures
        is_verdict(out, guess_digest@, password_digest@),
{
    if guess_digest.as_str().as_bytes().len() != password_digest.as_str().as_bytes().len() {
        return Err(AppError::BadRequest);
    }
    Ok(check_guess(guess_digest, password_digest))
}

/// The next step for the guess `guess` at session `game_id`, given how far
/// it has come.
///
/// A guess of the wrong length is refused before the store is asked anything.
/// Otherwise the guess is counted first. A session that is not there is not
/// found. A guess beyond the allowed number is not scored: the session is
/// deleted, and only then reported as not found. Any other guess is scored
/// by its digest under the session's salt.
pub fn make_guess(game_id: &[u8; 16], guess: &str, stage: GuessStage) -> (step: GuessStep)
    ensures
        match stage {
            GuessStage::Submitted => if encode_utf8(guess@).len() != PASSWORD_LENGTH {
                step == GuessStep::Finish(Err(AppError::BadRequest))
            } else {
                step is Ask && step->Ask_0@ == (StoreRequestView::IncrementAndRead {
                    keys: keys_of(game_id@),
                })
            },
            GuessStage::Counted(Ok((Some(guess_count), Some(salt), Some(password)))) => if guess_count
                > MAX_GUESS {
                step is Ask && step->Ask_0@ == (StoreRequestView::Delete { keys: keys_of(game_id@) })
            } else {
                step is Finish && is_verdict(step->Finish_0, digest_of(guess@, salt@), password@)
            },
            GuessStage::Counted(Ok(_)) => step == GuessStep::Finish(Err(AppError::GameNotFound)),
            GuessStage::Counted(Err(_)) => step == GuessStep::Finish(
                Err(AppError::InternalServerError),
            ),
            GuessStage::Deleted(Ok(_)) => step == GuessStep::Finish(Err(AppError::GameNotFound)),
            GuessStage::Deleted(Err(_)) => step == GuessStep::Finish(
                Err(AppError::InternalServerError),
            ),
        },
{
    match stage {
        GuessStage::Submitted => {
            if guess.as_bytes().len() != PASSWORD_LENGTH {
                GuessStep::Finish(Err(AppError::BadRequest))
            } else {
                GuessStep::Ask(StoreRequest::IncrementAndRead { keys: session_keys(game_id) })
            }
        },
        GuessStage::Counted(Ok((Some(guess_count), Some(salt), Some(password)))) => {
            if guess_count > MAX_GUESS {
                GuessStep::Ask(StoreRequest::Delete { keys: session_keys(game_id) })
            } else {
                let guess_digest = digest(guess, salt.as_str());
                GuessStep::Finish(evaluate_guess(guess_digest, password))
            }
        },
        GuessStage::Counted(Ok(_)) => GuessStep::Finish(Err(AppError::GameNotFound)),
        GuessStage::Counted(Err(_)) => GuessStep::Finish(Err(AppError::InternalServerError)),
        GuessStage::Deleted(Ok(_)) => GuessStep::Finish(Err(AppError::GameNotFound)),
        GuessStage::Deleted(Err(_)) => GuessStep::Finish(Err(AppError::InternalServerError)),
    }
}

} // verus!
