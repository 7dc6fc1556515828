//! Token counting: the tokenizer adapter and the size-adaptive counting of one
//! file.

use crate::config::AppConfig;
use crate::error::{AppError, AppResult};
use crate::file_filters::{binary_content, is_binary_slice, leading, SAMPLE_SIZE};
use std::collections::HashSet;
use tiktoken_rs::CoreBPE;
use vstd::prelude::*;
use vstd::string::*;
use vstd::utf8::*;

verus! {

/// The tokenizer of `tiktoken_rs`. Nothing inside it is visible here: a value
/// is only carried from the call that builds it to the call that counts.
#[verifier::external_type_specification]
#[verifier::external_body]
pub struct ExCoreBPE(CoreBPE);

/// The number of tokens into which `bpe` splits `text` when no special token
/// is recognised, or `None` where its pattern matcher gives up on the text.
pub uninterp spec fn ordinary_token_count(bpe: CoreBPE, text: Seq<char>) -> Option<usize>;

/// The number of tokens into which the o200k tokenizer splits `text` when no
/// special token is recognised, or `None` where its pattern matcher gives up
/// on the text.
pub uninterp spec fn o200k_token_count(text: Seq<char>) -> Option<usize>;

/// Calls `tiktoken_rs::o200k_base`, which builds the o200k tokenizer from the
/// vocabulary and the pattern compiled into that crate. Whether it succeeds
/// is not claimed. Where it does, the result is built from those constants
/// alone, so every tokenizer that comes back counts a text alike: as
/// `o200k_token_count` names it.
#[verifier::external_body]
fn load_o200k() -> (loaded: Option<CoreBPE>)
    ensures
        loaded matches Some(bpe) ==> (forall|text: Seq<char>| #[trigger]
            ordinary_token_count(bpe, text) == o200k_token_count(text)),
{
    tiktoken_rs::o200k_base().ok()
}

/// Calls `CoreBPE::count` with an empty set of allowed special tokens, which
/// encodes the text as `CoreBPE::encode_ordinary` does and reports a failure
/// of the pattern matcher as an error. The result is a function of the
/// tokenizer and the text alone; the contract names it.
#[verifier::external_body]
fn count_ordinary(bpe: &CoreBPE, text: &str) -> (count: Option<usize>)
    ensures
        count == ordinary_token_count(*bpe, text@),
{
    bpe.count(text, &HashSet::new()).ok()
}

/// Calls `simdutf8::basic::from_utf8`: the bytes as text if they are valid
/// UTF-8, `None` otherwise.
#[verifier::external_body]
fn text_of(bytes: &[u8]) -> (text: Option<&str>)
    ensures
        match text {
            Some(t) => valid_utf8(bytes@) && encode_utf8(t@) == bytes@,
            None => !valid_utf8(bytes@),
        },
{
    simdutf8::basic::from_utf8(bytes).ok()
}

/// A token-counting capability that may be unavailable. It is built once and
/// then only read, so it may be shared freely.
pub struct Tokenizer {
    bpe: Option<CoreBPE>,
}

impl Tokenizer {
    /// Whether the tokenizer can count.
    pub closed spec fn is_available(&self) -> bool {
        self.bpe is Some
    }

    /// The count this tokenizer gives for `text`: `None` if it is unavailable
    /// or gives up on the text. Fixed by the tokenizer and the text.
    pub closed spec fn count_of(&self, text: Seq<char>) -> Option<usize> {
        match self.bpe {
            Some(bpe) => ordinary_token_count(bpe, text),
            None => None,
        }
    }

    /// The tokenizer counts every text as the o200k tokenizer does.
    pub open spec fn counts_as_o200k(&self) -> bool {
        forall|text: Seq<char>| #[trigger] self.count_of(text) == o200k_token_count(text)
    }

    /// Builds the o200k tokenizer. If building fails the tokenizer is
    /// unavailable and stays so; if it succeeds the tokenizer counts every
    /// text as the o200k tokenizer does, so that two tokenizers built here
    /// never differ on a text.
    pub fn load() -> (tokenizer: Tokenizer)
        ensures
            tokenizer.is_available() ==> tokenizer.counts_as_o200k(),
            !tokenizer.is_available() ==> (forall|text: Seq<char>| #[trigger]
                tokenizer.count_of(text) is None),
    {
        Tokenizer { bpe: load_o200k() }
    }

    /// A tokenizer that cannot count.
    pub fn unavailable() -> (tokenizer: Tokenizer)
        ensures
            !tokenizer.is_available(),
            forall|text: Seq<char>| tokenizer.count_of(text) is None,
    {
        Tokenizer { bpe: None }
    }

    /// Whether the tokenizer can count.
    pub fn available(&self) -> (available: bool)
        ensures
            available == self.is_available(),
    {
        self.bpe.is_some()
    }

    /// The number of tokens in `text`.
    ///
    /// Fails with `TokenizerError` exactly when the tokenizer is unavailable
    /// or gives up on the text; otherwise the count is the one fixed by the
    /// tokenizer and the text.
    pub fn count(&self, text: &str) -> (result: AppResult<usize>)
        ensures
            tokenizer_result(*self, text@, result),
    {
        match &self.bpe {
            None => Err(AppError::TokenizerError(String::from_str(UNAVAILABLE))),
            Some(bpe) => match count_ordinary(bpe, text) {
                Some(n) => Ok(n),
                None => Err(AppError::TokenizerError(String::from_str(GAVE_UP))),
            },
        }
    }
}

/// Detail text of the error for an unavailable tokenizer.
pub const UNAVAILABLE: &'static str = "BPE tokenizer not available";

/// Detail text of the error for a text the tokenizer gives up on.
pub const GAVE_UP: &'static str = "BPE tokenizer could not split the text";

/// What `Tokenizer::count` returns for a tokenizer and a text.
pub open spec fn tokenizer_result(
    tokenizer: Tokenizer,
    text: Seq<char>,
    result: AppResult<usize>,
) -> bool {
    if !tokenizer.is_available() {
        result matches Err(AppError::TokenizerError(detail)) && detail@ == UNAVAILABLE@
    } else {
        match tokenizer.count_of(text) {
            Some(n) => result matches Ok(count) && count == n,
            None => result matches Err(AppError::TokenizerError(detail)) && detail@ == GAVE_UP@,
        }
    }
}

/// The number of tokens in a prompt.
pub fn count_prompt_tokens(tokenizer: &Tokenizer, prompt: &str) -> (result: AppResult<usize>)
    ensures
        tokenizer_result(*tokenizer, prompt@, result),
{
    tokenizer.count(prompt)
}

/// How a file is to be read before its tokens are counted.
#[derive(Debug, Clone, Copy, PartialEq, Eq, Structural)]
pub enum ReadPlan {
    /// Not read and not counted: counting is off or the file is too large.
    Skip,
    /// Not read: the file is empty and holds no tokens.
    Empty,
    /// Read whole into memory.
    Buffered,
    /// Mapped into memory and validated in place.
    Mapped,
}

/// What reading a file produced.
pub enum FileRead<'a> {
    /// The file was not read.
    NotRead,
    /// Opening, reading or mapping failed; the text says how.
    Failed(String),
    /// The bytes of the file.
    Content(&'a [u8]),
}

/// Detail text of the error for content that was asked for and not supplied.
pub const NOT_READ: &'static str = "file content was not read";

/// The reading strategy for a file of `size` bytes under `config`.
pub open spec fn plan_for(size: u64, config: AppConfig) -> ReadPlan {
    if !config.enable_token_counting || size > config.max_file_size {
        ReadPlan::Skip
    } else if size == 0 {
        ReadPlan::Empty
    } else if size <= config.small_file_size {
        ReadPlan::Buffered
    } else {
        ReadPlan::Mapped
    }
}

/// What counting the tokens of file content returns: no count for content
/// that looks binary or is not valid UTF-8, else what the tokenizer says of
/// the decoded text.
pub open spec fn content_result(
    bytes: Seq<u8>,
    tokenizer: Tokenizer,
    result: AppResult<Option<usize>>,
) -> bool {
    if binary_content(leading(bytes, SAMPLE_SIZE as int)) || !valid_utf8(bytes) {
        result matches Ok(None)
    } else if !tokenizer.is_available() {
        result matches Err(AppError::TokenizerError(detail)) && detail@ == UNAVAILABLE@
    } else {
        match tokenizer.count_of(decode_utf8(bytes)) {
            Some(n) => result matches Ok(Some(count)) && count == n,
            None => result matches Err(AppError::TokenizerError(detail)) && detail@ == GAVE_UP@,
        }
    }
}

/// The count of file content, where there is one: none for content that
/// looks binary or is not valid UTF-8, else the tokenizer's count of the
/// decoded text.
pub open spec fn content_count(bytes: Seq<u8>, tokenizer: Tokenizer) -> Option<usize> {
    if binary_content(leading(bytes, SAMPLE_SIZE as int)) || !valid_utf8(bytes) {
        None
    } else {
        tokenizer.count_of(decode_utf8(bytes))
    }
}

/// The count of one file, where there is one: none for a file that is not to
/// be counted, zero for an empty file, else the count of the content that was
/// read.
pub open spec fn counted(
    size: u64,
    read: FileRead,
    config: AppConfig,
    tokenizer: Tokenizer,
) -> Option<usize> {
    match plan_for(size, config) {
        ReadPlan::Skip => None,
        ReadPlan::Empty => Some(0usize),
        _ => match read {
            FileRead::Content(bytes) => content_count(bytes@, tokenizer),
            _ => None,
        },
    }
}

/// The count in a result, with every failure taken as no count.
pub open spec fn count_or_none(result: AppResult<Option<usize>>) -> Option<usize> {
    match result {
        Ok(count) => count,
        Err(_) => None,
    }
}

/// What counting the tokens of one file returns, given its size, what reading
/// it produced, the policy and the tokenizer.
pub open spec fn adaptive_result(
    size: u64,
    read: FileRead,
    config: AppConfig,
    tokenizer: Tokenizer,
    result: AppResult<Option<usize>>,
) -> bool {
    match plan_for(size, config) {
        ReadPlan::Skip => result matches Ok(None),
        ReadPlan::Empty => result matches Ok(Some(count)) && count == 0,
        _ => match read {
            FileRead::NotRead => result matches Err(AppError::FileReadError(detail)) && detail@
                == NOT_READ@,
            FileRead::Failed(reason) => result matches Err(AppError::FileReadError(detail))
                && detail@ == reason@,
            FileRead::Content(bytes) => content_result(bytes@, tokenizer, result),
        },
    }
}

/// Chooses how a file of `size` bytes is read before counting.
pub fn read_plan(size: u64, config: &AppConfig) -> (plan: ReadPlan)
    ensures
        plan == plan_for(size, *config),
{
    if !config.enable_token_counting || size > config.max_file_size {
        ReadPlan::Skip
    } else if size == 0 {
        ReadPlan::Empty
    } else if size <= config.small_file_size {
        ReadPlan::Buffered
    } else {
        ReadPlan::Mapped
    }
}

/// Counts the tokens of file content.
///
/// Content that looks binary in its first `SAMPLE_SIZE` bytes, or that is not
/// valid UTF-8, has no count. Otherwise the count is the tokenizer's count of
/// the decoded text, and the tokenizer's error is handed on.
pub fn count_content_tokens(bytes: &[u8], tokenizer: &Tokenizer) -> (result: AppResult<
    Option<usize>,
>)
    ensures
        content_result(bytes@, *tokenizer, result),
        count_or_none(result) == content_count(bytes@, *tokenizer),
{
    let binary = if bytes.len() <= SAMPLE_SIZE {
        is_binary_slice(bytes)
    } else {
        is_binary_slice(&bytes[0..SAMPLE_SIZE])
    };
    if binary {
        return Ok(None);
    }
    match text_of(bytes) {
        None => Ok(None),
        Some(text) => {
            proof {
                encode_utf8_decode_utf8(text@);
            }
            match tokenizer.count(text) {
                Ok(count) => Ok(Some(count)),
                Err(error) => Err(error),
            }
        },
    }
}

/// Counts the tokens of one file.
///
/// A file is not counted when counting is off or the file is larger than the
/// policy allows; an empty file has zero tokens; neither is read. For any
/// other file the content is needed: a failed read is a `FileReadError`, and
/// content is counted as `count_content_tokens` says.
pub fn count_tokens_adaptive(
    size: u64,
    read: &FileRead,
    config: &AppConfig,
    tokenizer: &Tokenizer,
) -> (result: AppResult<Option<usize>>)
    ensures
        adaptive_result(size, *read, *config, *tokenizer, result),
        count_or_none(result) == counted(size, *read, *config, *tokenizer),
        size > config.max_file_size ==> (result matches Ok(None)),
        !config.enable_token_counting ==> (result matches Ok(None)),
{
    match read_plan(size, config) {
        ReadPlan::Skip => Ok(None),
        ReadPlan::Empty => Ok(Some(0)),
        _ => match read {
            FileRead::NotRead => Err(AppError::FileReadError(String::from_str(NOT_READ))),
            FileRead::Failed(reason) => Err(AppError::FileReadError(reason.clone())),
            FileRead::Content(bytes) => count_content_tokens(bytes, tokenizer),
        },
    }
}

} // verus!
