//! What can go wrong around a game.

use vstd::prelude::*;
use vstd::string::StringExecFns;
use crate::text::{decimal, decimal_digits};

verus! {

/// The errors of the game and of what surrounds it.
#[derive(Debug, PartialEq, Eq)]
pub enum GameError {
    GameNotFound(String),
    GameAlreadyFinished(String),
    InvalidGuess { guess: u32, min: u32, max: u32 },
    InvalidDifficulty(String),
    InvalidPlayerId(String),
    TooManyConcurrentGames(String),
    GameTimeout(String),
    CalimeroConnectionError(String),
    CalimeroContextError(String),
    BlockchainStorageError(String),
    BlockchainRetrievalError(String),
    StorageError(String),
    SerializationError(String),
    DeserializationError(String),
    InvalidConfiguration(String),
    ConfigurationNotFound(String),
    HttpError(String),
    InvalidApiRequest(String),
    ServerError(String),
    IoError(String),
    ParseError(String),
    AuthenticationError(String),
    PermissionError(String),
    SessionError,
    RateLimitExceeded(String),
    TooManyFailedAttempts(String),
    UnexpectedError(String),
}

/// The result of an operation of the game.
pub type GameResult<T> = Result<T, GameError>;

impl GameError {
    /// Whether the game can go on after the error.
    pub open spec fn recoverable(self) -> bool {
        self is InvalidGuess || self is InvalidApiRequest || self is ParseError
            || self is RateLimitExceeded
    }

    /// Whether the failed operation is worth trying again.
    pub open spec fn retryable(self) -> bool {
        self is CalimeroConnectionError || self is BlockchainStorageError || self is HttpError
            || self is StorageError
    }

    /// The name of the group that the error belongs to.
    pub open spec fn category_name(self) -> Seq<char> {
        match self {
            GameError::GameNotFound(_)
            | GameError::GameAlreadyFinished(_)
            | GameError::InvalidGuess { .. }
            | GameError::GameTimeout(_)
            | GameError::TooManyConcurrentGames(_) => "game"@,
            GameError::InvalidDifficulty(_)
            | GameError::InvalidPlayerId(_)
            | GameError::InvalidConfiguration(_)
            | GameError::ConfigurationNotFound(_) => "config"@,
            GameError::CalimeroConnectionError(_)
            | GameError::CalimeroContextError(_)
            | GameError::BlockchainStorageError(_)
            | GameError::BlockchainRetrievalError(_) => "blockchain"@,
            GameError::StorageError(_)
            | GameError::SerializationError(_)
            | GameError::DeserializationError(_) => "storage"@,
            GameError::HttpError(_) | GameError::InvalidApiRequest(_) | GameError::ServerError(_) => {
                "network"@
            },
            GameError::IoError(_) | GameError::ParseError(_) => "io"@,
            GameError::AuthenticationError(_)
            | GameError::PermissionError(_)
            | GameError::SessionError => "auth"@,
            GameError::RateLimitExceeded(_) | GameError::TooManyFailedAttempts(_) => "rate_limit"@,
            GameError::UnexpectedError(_) => "unknown"@,
        }
    }

    /// The text that describes the error.
    pub open spec fn message_text(self) -> Seq<char> {
        match self {
            GameError::GameNotFound(id) => "Game with ID "@ + id@ + " not found"@,
            GameError::GameAlreadyFinished(id) => "Game with ID "@ + id@ + " is already finished"@,
            GameError::InvalidGuess { guess, min, max } => "Invalid guess: "@ + decimal_digits(
                guess as nat,
            ) + " is outside the valid range "@ + decimal_digits(min as nat) + "-"@
                + decimal_digits(max as nat),
            GameError::InvalidDifficulty(name) => "Invalid difficulty level: "@ + name@
                + ". Valid options are: easy, normal, hard"@,
            GameError::InvalidPlayerId(id) => "Invalid player ID: "@ + id@
                + ". Player ID must be 1-64 characters long and contain only alphanumeric characters, underscores, or hyphens"@,
            GameError::TooManyConcurrentGames(id) => "Maximum concurrent games reached for player "@
                + id@,
            GameError::GameTimeout(id) => "Game timeout: game "@ + id@
                + " has been inactive for too long"@,
            GameError::CalimeroConnectionError(why) => "Failed to connect to Calimero Network: "@
                + why@,
            GameError::CalimeroContextError(why) => "Failed to initialize Calimero context: "@
                + why@,
            GameError::BlockchainStorageError(why) => "Failed to store game result to blockchain: "@
                + why@,
            GameError::BlockchainRetrievalError(why) => "Failed to retrieve data from blockchain: "@
                + why@,
            GameError::StorageError(why) => "Local storage error: "@ + why@,
            GameError::SerializationError(why) => "Failed to serialize game data: "@ + why@,
            GameError::DeserializationError(why) => "Failed to deserialize game data: "@ + why@,
            GameError::InvalidConfiguration(why) => "Invalid game configuration: "@ + why@,
            GameError::ConfigurationNotFound(path) => "Configuration file not found at path: "@
                + path@,
            GameError::HttpError(why) => "HTTP request failed: "@ + why@,
            GameError::InvalidApiRequest(why) => "Invalid API request: "@ + why@,
            GameError::ServerError(why) => "Server internal error: "@ + why@,
            GameError::IoError(why) => "Input/Output error: "@ + why@,
            GameError::ParseError(why) => "Failed to parse input: "@ + why@,
            GameError::AuthenticationError(why) => "Authentication failed: "@ + why@,
            GameError::PermissionError(why) => "Insufficient permissions for operation: "@ + why@,
            GameError::SessionError => "Invalid or expired session"@,
            GameError::RateLimitExceeded(id) => "Rate limit exceeded for player "@ + id@,
            GameError::TooManyFailedAttempts(id) => "Too many failed attempts for player "@ + id@,
            GameError::UnexpectedError(why) => "Unexpected error: "@ + why@,
        }
    }

    /// Whether the game can go on after the error.
    pub fn is_recoverable(&self) -> (yes: bool)
        ensures
            yes == self.recoverable(),
    {
        match self {
            GameError::InvalidGuess { .. } => true,
            GameError::InvalidApiRequest(_) => true,
            GameError::ParseError(_) => true,
            GameError::RateLimitExceeded(_) => true,
            _ => false,
        }
    }

    /// Whether the failed operation is worth trying again.
    pub fn should_retry(&self) -> (yes: bool)
        ensures
            yes == self.retryable(),
    {
        match self {
            GameError::CalimeroConnectionError(_) => true,
            GameError::BlockchainStorageError(_) => true,
            GameError::HttpError(_) => true,
            GameError::StorageError(_) => true,
            _ => false,
        }
    }

    /// The name of the group that the error belongs to, for logs and
    /// monitoring.
    pub fn category(&self) -> (name: &'static str)
        ensures
            name@ == self.category_name(),
    {
        match self {
            GameError::GameNotFound(_) => "game",
            GameError::GameAlreadyFinished(_) => "game",
            GameError::InvalidGuess { .. } => "game",
            GameError::GameTimeout(_) => "game",
            GameError::TooManyConcurrentGames(_) => "game",
            GameError::InvalidDifficulty(_) => "config",
            GameError::InvalidPlayerId(_) => "config",
            GameError::InvalidConfiguration(_) => "config",
            GameError::ConfigurationNotFound(_) => "config",
            GameError::CalimeroConnectionError(_) => "blockchain",
            GameError::CalimeroContextError(_) => "blockchain",
            GameError::BlockchainStorageError(_) => "blockchain",
            GameError::BlockchainRetrievalError(_) => "blockchain",
            GameError::StorageError(_) => "storage",
            GameError::SerializationError(_) => "storage",
            GameError::DeserializationError(_) => "storage",
            GameError::HttpError(_) => "network",
            GameError::InvalidApiRequest(_) => "network",
            GameError::ServerError(_) => "network",
            GameError::IoError(_) => "io",
            GameError::ParseError(_) => "io",
            GameError::AuthenticationError(_) => "auth",
            GameError::PermissionError(_) => "auth",
            GameError::SessionError => "auth",
            GameError::RateLimitExceeded(_) => "rate_limit",
            GameError::TooManyFailedAttempts(_) => "rate_limit",
            GameError::UnexpectedError(_) => "unknown",
        }
    }

    /// The text that describes the error.
    pub fn message(&self) -> (text: String)
        ensures
            text@ == self.message_text(),
    {
        match self {
            GameError::GameNotFound(id) => framed("Game with ID ", id.as_str(), " not found"),
            GameError::GameAlreadyFinished(id) => framed(
                "Game with ID ",
                id.as_str(),
                " is already finished",
            ),
            GameError::InvalidGuess { guess, min, max } => {
                let text = String::from_str("Invalid guess: ").concat(
                    decimal(*guess as u128).as_str(),
                ).concat(" is outside the valid range ").concat(
                    decimal(*min as u128).as_str(),
                ).concat("-").concat(decimal(*max as u128).as_str());
                text
            },
            GameError::InvalidDifficulty(name) => framed(
                "Invalid difficulty level: ",
                name.as_str(),
                ". Valid options are: easy, normal, hard",
            ),
            GameError::InvalidPlayerId(id) => framed(
                "Invalid player ID: ",
                id.as_str(),
                ". Player ID must be 1-64 characters long and contain only alphanumeric characters, underscores, or hyphens",
            ),
            GameError::TooManyConcurrentGames(id) => String::from_str(
                "Maximum concurrent games reached for player ",
            ).concat(id.as_str()),
            GameError::GameTimeout(id) => framed(
                "Game timeout: game ",
                id.as_str(),
                " has been inactive for too long",
            ),
            GameError::CalimeroConnectionError(why) => String::from_str(
                "Failed to connect to Calimero Network: ",
            ).concat(why.as_str()),
            GameError::CalimeroContextError(why) => String::from_str(
                "Failed to initialize Calimero context: ",
            ).concat(why.as_str()),
            GameError::BlockchainStorageError(why) => String::from_str(
                "Failed to store game result to blockchain: ",
            ).concat(why.as_str()),
            GameError::BlockchainRetrievalError(why) => String::from_str(
                "Failed to retrieve data from blockchain: ",
            ).concat(why.as_str()),
            GameError::StorageError(why) => String::from_str("Local storage error: ").concat(
                why.as_str(),
            ),
            GameError::SerializationError(why) => String::from_str(
                "Failed to serialize game data: ",
            ).concat(why.as_str()),
            GameError::DeserializationError(why) => String::from_str(
                "Failed to deserialize game data: ",
            ).concat(why.as_str()),
            GameError::InvalidConfiguration(why) => String::from_str(
                "Invalid game configuration: ",
            ).concat(why.as_str()),
            GameError::ConfigurationNotFound(path) => String::from_str(
                "Configuration file not found at path: ",
            ).concat(path.as_str()),
            GameError::HttpError(why) => String::from_str("HTTP request failed: ").concat(
                why.as_str(),
            ),
            GameError::InvalidApiRequest(why) => String::from_str("Invalid API request: ").concat(
                why.as_str(),
            ),
            GameError::ServerError(why) => String::from_str("Server internal error: ").concat(
                why.as_str(),
            ),
            GameError::IoError(why) => String::from_str("Input/Output error: ").concat(
                why.as_str(),
            ),
            GameError::ParseError(why) => String::from_str("Failed to parse input: ").concat(
                why.as_str(),
            ),
            GameError::AuthenticationError(why) => String::from_str(
                "Authentication failed: ",
            ).concat(why.as_str()),
            GameError::PermissionError(why) => String::from_str(
                "Insufficient permissions for operation: ",
            ).concat(why.as_str()),
            GameError::SessionError => String::from_str("Invalid or expired session"),
            GameError::RateLimitExceeded(id) => String::from_str(
                "Rate limit exceeded for player ",
            ).concat(id.as_str()),
            GameError::TooManyFailedAttempts(id) => String::from_str(
                "Too many failed attempts for player ",
            ).concat(id.as_str()),
            GameError::UnexpectedError(why) => String::from_str("Unexpected error: ").concat(
                why.as_str(),
            ),
        }
    }
}

/// `before`, `middle` and `after` in one text.
fn framed(before: &str, middle: &str, after: &str) -> (text: String)
    ensures
        text@ == before@ + middle@ + after@,
{
    String::from_str(before).concat(middle).concat(after)
}

/// An error as it is sent to a client.
#[derive(Debug, PartialEq, Eq)]
pub struct ErrorResponse {
    pub error: String,
    pub message: String,
    pub category: String,
    pub recoverable: bool,
    pub timestamp: String,
}

impl ErrorResponse {
    /// The response for `error`, stamped with the time the caller read from
    /// its clock.
    pub fn new(error: &GameError, timestamp: String) -> (response: ErrorResponse)
        ensures
            response.error@ == error.category_name(),
            response.message@ == error.message_text(),
            response.category@ == error.category_name(),
            response.recoverable == error.recoverable(),
            response.timestamp@ == timestamp@,
    {
        ErrorResponse {
            error: String::from_str(error.category()),
            message: error.message(),
            category: String::from_str(error.category()),
            recoverable: error.is_recoverable(),
            timestamp,
        }
    }
}

} // verus!
