//! Bus subject naming conventions.

use crate::text;
use vstd::prelude::*;
use vstd::utf8::*;

verus! {

/// Root prefix for all orbflow bus subjects.
pub const SUBJECT_PREFIX: &'static str = "orbflow";

/// Maximum worker-pool token length accepted for subject/durable construction.
pub const MAX_POOL_NAME_LEN: usize = 64;

/// Why a worker-pool name cannot be a subject token.
#[derive(Debug, Clone, PartialEq, Eq)]
pub enum SubjectNameError {
    EmptyPool,
    PoolTooLong { max: usize },
    InvalidPoolCharacter { ch: char, index: usize },
}

/// What the error says to an operator.
pub open spec fn subject_error_text(e: SubjectNameError) -> Seq<char> {
    match e {
        SubjectNameError::EmptyPool => "worker pool name must not be empty"@,
        SubjectNameError::PoolTooLong { max } => "worker pool name must be at most "@ + text::decimal(
            max as nat,
        ) + " characters"@,
        SubjectNameError::InvalidPoolCharacter { ch, index } =>
            "worker pool name contains invalid character '"@.push(ch) + "' at byte "@ + text::decimal(
            index as nat,
        ) + "; use ASCII letters, digits, '_' or '-'"@,
    }
}

impl SubjectNameError {
    /// The error as text.
    pub fn to_string(&self) -> (r: String)
        ensures
            r@ == subject_error_text(*self),
    {
        match self {
            SubjectNameError::EmptyPool => "worker pool name must not be empty".to_owned(),
            SubjectNameError::PoolTooLong { max } => {
                let mut out = "worker pool name must be at most ".to_owned();
                text::push_decimal(&mut out, *max as u64);
                out.append(" characters");
                out
            },
            SubjectNameError::InvalidPoolCharacter { ch, index } => {
                let mut out = "worker pool name contains invalid character '".to_owned();
                out.push(*ch);
                out.append("' at byte ");
                text::push_decimal(&mut out, *index as u64);
                out.append("; use ASCII letters, digits, '_' or '-'");
                out
            },
        }
    }
}

/// A character that a pool token may hold.
pub open spec fn is_pool_char(c: char) -> bool {
    text::is_ascii_alphanumeric(c) || c == '_' || c == '-'
}

/// A single subject token: 1 to 64 characters out of ASCII letters, digits, `_` and `-`.
pub open spec fn is_pool_token(pool: Seq<char>) -> bool {
    &&& 0 < pool.len() <= MAX_POOL_NAME_LEN
    &&& forall|i: int| 0 <= i < pool.len() ==> is_pool_char(#[trigger] pool[i])
}

/// `e` is the reason for which `pool` is refused: it is empty; else its UTF-8
/// encoding is too long; else its first character that no token may hold, with
/// the byte offset at which it stands.
pub open spec fn pool_refused_for(pool: Seq<char>, e: SubjectNameError) -> bool {
    match e {
        SubjectNameError::EmptyPool => pool.len() == 0,
        SubjectNameError::PoolTooLong { max } => {
            &&& max == MAX_POOL_NAME_LEN
            &&& encode_utf8(pool).len() > max
        },
        SubjectNameError::InvalidPoolCharacter { ch, index } => {
            &&& encode_utf8(pool).len() <= MAX_POOL_NAME_LEN
            &&& index < pool.len()
            &&& ch == pool[index as int]
            &&& !is_pool_char(ch)
            &&& forall|i: int| 0 <= i < index ==> is_pool_char(#[trigger] pool[i])
            &&& encode_utf8(pool.take(index as int)).len() == index
        },
    }
}

proof fn lemma_pool_chars_width(s: Seq<char>)
    requires
        forall|i: int| 0 <= i < s.len() ==> is_pool_char(#[trigger] s[i]),
    ensures
        encode_utf8(s).len() == s.len(),
{
    assert(is_ascii_chars(s)) by {
        assert forall|i: int| 0 <= i < s.len() implies (#[trigger] s[i] as u32) < 128 by {
            assert(is_pool_char(s[i]));
        }
    }
    is_ascii_chars_encode_utf8(s);
}

/// Validates a worker-pool token before using it in a NATS subject or durable name.
///
/// This intentionally rejects dots, wildcards, whitespace, and non-ASCII
/// characters so pool names stay a single deterministic subject token.
pub fn validate_pool_name(pool: &str) -> (r: Result<(), SubjectNameError>)
    ensures
        r is Ok <==> is_pool_token(pool@),
        r matches Err(e) ==> pool_refused_for(pool@, e),
{
    if pool.is_empty() {
        return Err(SubjectNameError::EmptyPool);
    }
    if pool.as_bytes().len() > MAX_POOL_NAME_LEN {
        proof {
            if is_pool_token(pool@) {
                lemma_pool_chars_width(pool@);
            }
        }
        return Err(SubjectNameError::PoolTooLong { max: MAX_POOL_NAME_LEN });
    }
    let chars = text::chars_of(pool);
    let mut index: usize = 0;
    while index < chars.len()
        invariant
            index <= chars.len(),
            chars@ == pool@,
            encode_utf8(pool@).len() <= MAX_POOL_NAME_LEN,
            forall|i: int| 0 <= i < index ==> is_pool_char(#[trigger] pool@[i]),
        decreases chars.len() - index,
    {
        let ch = chars[index];
        if !(text::ascii_alphanumeric(ch) || ch == '_' || ch == '-') {
            proof {
                assert forall|i: int|
                    0 <= i < index implies is_pool_char(#[trigger] pool@.take(index as int)[i]) by {
                    assert(pool@.take(index as int)[i] == pool@[i]);
                }
                lemma_pool_chars_width(pool@.take(index as int));
                assert(!is_pool_char(pool@[index as int]));
            }
            return Err(SubjectNameError::InvalidPoolCharacter { ch, index });
        }
        index += 1;
    }
    proof {
        lemma_pool_chars_width(pool@);
    }
    Ok(())
}

pub const FNV_OFFSET: u64 = 0xcbf2_9ce4_8422_2325;

pub const FNV_PRIME: u64 = 0x0000_0100_0000_01b3;

/// The 64-bit FNV-1a hash of a byte sequence.
pub open spec fn fnv1a(bytes: Seq<u8>) -> u64
    decreases bytes.len(),
{
    if bytes.len() == 0 {
        FNV_OFFSET
    } else {
        let mixed = fnv1a(bytes.drop_last()) ^ (bytes.last() as u64);
        ((mixed as nat * FNV_PRIME as nat) % 0x1_0000_0000_0000_0000) as u64
    }
}

/// The subject token for a pool name: the name itself where it is one, else a
/// fixed token for the empty name, else `pool_` and the hash of the name.
pub open spec fn encoded_pool_name(pool: Seq<char>) -> Seq<char> {
    if is_pool_token(pool) {
        pool
    } else if pool.len() == 0 {
        "pool_empty"@
    } else {
        "pool_"@ + text::hex(fnv1a(encode_utf8(pool)) as nat, 16, false)
    }
}

fn hash_bytes(bytes: &[u8]) -> (hash: u64)
    ensures
        hash == fnv1a(bytes@),
{
    let mut hash: u64 = FNV_OFFSET;
    let mut i: usize = 0;
    while i < bytes.len()
        invariant
            i <= bytes.len(),
            hash == fnv1a(bytes@.take(i as int)),
        decreases bytes.len() - i,
    {
        hash = (hash ^ (bytes[i] as u64)).wrapping_mul(FNV_PRIME);
        assert(bytes@.take(i + 1).drop_last() =~= bytes@.take(i as int));
        i += 1;
    }
    assert(bytes@.take(bytes@.len() as int) =~= bytes@);
    hash
}

/// Deterministically encodes an arbitrary pool name into a safe subject token.
///
/// Runtime adapters may choose validation-only behavior for operator mistakes,
/// or use this helper when they need a reversible-free stable token for legacy
/// pool names that already contain dots or spaces.
pub fn encode_pool_name(pool: &str) -> (r: String)
    ensures
        r@ == encoded_pool_name(pool@),
        is_pool_token(r@),
{
    proof {
        law_encoded_pool_name_is_token(pool@);
    }
    if validate_pool_name(pool).is_ok() {
        return pool.to_owned();
    }
    if pool.is_empty() {
        return "pool_empty".to_owned();
    }
    let hash: u64 = hash_bytes(pool.as_bytes());
    let mut out = "pool_".to_owned();
    text::push_hex(&mut out, hash, 16, false);
    out
}

/// The subject `orbflow.tasks.<pool>`.
pub open spec fn task_subject_text(pool: Seq<char>) -> Seq<char> {
    SUBJECT_PREFIX@ + ".tasks."@ + pool
}

/// The subject `orbflow.results.<pool>`.
pub open spec fn result_subject_text(pool: Seq<char>) -> Seq<char> {
    SUBJECT_PREFIX@ + ".results."@ + pool
}

/// Returns the subject for dispatching tasks to a worker pool.
pub fn task_subject(pool: &str) -> (r: String)
    ensures
        r@ == task_subject_text(pool@),
{
    let mut out = SUBJECT_PREFIX.to_owned();
    out.append(".tasks.");
    out.append(pool);
    out
}

/// Validates a worker pool and returns the task subject.
pub fn try_task_subject(pool: &str) -> (r: Result<String, SubjectNameError>)
    ensures
        r is Ok <==> is_pool_token(pool@),
        r matches Ok(subject) ==> subject@ == task_subject_text(pool@),
        r matches Err(e) ==> pool_refused_for(pool@, e),
{
    match validate_pool_name(pool) {
        Ok(()) => Ok(task_subject(pool)),
        Err(e) => Err(e),
    }
}

/// Encodes a worker pool if needed and returns the task subject.
pub fn safe_task_subject(pool: &str) -> (r: String)
    ensures
        r@ == task_subject_text(encoded_pool_name(pool@)),
{
    task_subject(encode_pool_name(pool).as_str())
}

/// Returns the subject for publishing results from a worker pool.
pub fn result_subject(pool: &str) -> (r: String)
    ensures
        r@ == result_subject_text(pool@),
{
    let mut out = SUBJECT_PREFIX.to_owned();
    out.append(".results.");
    out.append(pool);
    out
}

/// Validates a worker pool and returns the result subject.
pub fn try_result_subject(pool: &str) -> (r: Result<String, SubjectNameError>)
    ensures
        r is Ok <==> is_pool_token(pool@),
        r matches Ok(subject) ==> subject@ == result_subject_text(pool@),
        r matches Err(e) ==> pool_refused_for(pool@, e),
{
    match validate_pool_name(pool) {
        Ok(()) => Ok(result_subject(pool)),
        Err(e) => Err(e),
    }
}

/// Encodes a worker pool if needed and returns the result subject.
pub fn safe_result_subject(pool: &str) -> (r: String)
    ensures
        r@ == result_subject_text(encoded_pool_name(pool@)),
{
    result_subject(encode_pool_name(pool).as_str())
}

/// Returns the subject for publishing streaming chunks for an instance/node.
pub fn stream_subject(instance_id: &str, node_id: &str) -> (r: String)
    ensures
        r@ == SUBJECT_PREFIX@ + ".stream."@ + instance_id@ + "."@ + node_id@,
{
    let mut out = SUBJECT_PREFIX.to_owned();
    out.append(".stream.");
    out.append(instance_id);
    out.append(".");
    out.append(node_id);
    out
}

/// Returns the subject for notifying workers to reload plugins from disk.
pub fn plugin_reload_subject() -> (r: String)
    ensures
        r@ == SUBJECT_PREFIX@ + ".worker.reload-plugins"@,
{
    let mut out = SUBJECT_PREFIX.to_owned();
    out.append(".worker.reload-plugins");
    out
}

proof fn lemma_hex_digits(n: nat, width: nat)
    ensures
        text::hex(n, width, false).len() == width,
        forall|i: int| 0 <= i < width ==> is_pool_char(#[trigger] text::hex(n, width, false)[i]),
    decreases width,
{
    if width > 0 {
        lemma_hex_digits(n / 16, (width - 1) as nat);
        let rest = text::hex(n / 16, (width - 1) as nat, false);
        assert(text::hex(n, width, false) == rest.push(text::hex_char(n % 16, false)));
        assert forall|i: int| 0 <= i < width implies is_pool_char(
            #[trigger] text::hex(n, width, false)[i],
        ) by {
            if i < width - 1 {
                assert(text::hex(n, width, false)[i] == rest[i]);
            }
        }
    }
}

/// Whatever the pool name, its encoding is a valid subject token.
pub proof fn law_encoded_pool_name_is_token(pool: Seq<char>)
    ensures
        is_pool_token(encoded_pool_name(pool)),
{
    reveal_strlit("pool_empty");
    reveal_strlit("pool_");
    if !is_pool_token(pool) && pool.len() > 0 {
        let digits = text::hex(fnv1a(encode_utf8(pool)) as nat, 16, false);
        lemma_hex_digits(fnv1a(encode_utf8(pool)) as nat, 16);
        let token = "pool_"@ + digits;
        assert forall|i: int| 0 <= i < token.len() implies is_pool_char(#[trigger] token[i]) by {
            if i >= 5 {
                assert(token[i] == digits[i - 5]);
            }
        }
    }
}

/// Encoding a name a second time changes nothing.
pub proof fn law_pool_encoding_is_idempotent(pool: Seq<char>)
    ensures
        encoded_pool_name(encoded_pool_name(pool)) == encoded_pool_name(pool),
{
    law_encoded_pool_name_is_token(pool);
}

/// Task subjects of different pools differ, and so do result subjects; no task
/// subject is a result subject.
pub proof fn law_pool_subjects_are_distinct(a: Seq<char>, b: Seq<char>)
    ensures
        task_subject_text(a) == task_subject_text(b) ==> a == b,
        result_subject_text(a) == result_subject_text(b) ==> a == b,
        task_subject_text(a) != result_subject_text(b),
{
    reveal_strlit("orbflow");
    reveal_strlit(".tasks.");
    reveal_strlit(".results.");
    assert(task_subject_text(a).skip(14) =~= a);
    assert(task_subject_text(b).skip(14) =~= b);
    assert(result_subject_text(a).skip(16) =~= a);
    assert(result_subject_text(b).skip(16) =~= b);
    assert(task_subject_text(a)[8] == 't');
    assert(result_subject_text(b)[8] == 'r');
}

/// The subjects of a pool are its name behind the one for tasks and the one for
/// results.
pub proof fn law_subjects_end_in_the_pool(pool: Seq<char>)
    ensures
        task_subject_text(pool) == "orbflow.tasks."@ + pool,
        result_subject_text(pool) == "orbflow.results."@ + pool,
{
    reveal_strlit("orbflow");
    reveal_strlit(".tasks.");
    reveal_strlit(".results.");
    reveal_strlit("orbflow.tasks.");
    reveal_strlit("orbflow.results.");
    assert("orbflow"@ + ".tasks."@ =~= "orbflow.tasks."@);
    assert("orbflow"@ + ".results."@ =~= "orbflow.results."@);
}

/// The name of a pool is a token exactly where it has from 1 to 64 letters, digits,
/// underscores and hyphens.
pub proof fn law_pool_tokens_are_plain_names(pool: Seq<char>)
    ensures
        is_pool_token(pool) <==> 1 <= pool.len() <= 64 && forall|i: int|
            0 <= i < pool.len() ==> ('a' <= (#[trigger] pool[i]) <= 'z') || ('A' <= pool[i] <= 'Z')
                || ('0' <= pool[i] <= '9') || pool[i] == '_' || pool[i] == '-',
{
    if is_pool_token(pool) {
        assert forall|i: int| 0 <= i < pool.len() implies ('a' <= (#[trigger] pool[i]) <= 'z') || (
        'A' <= pool[i] <= 'Z') || ('0' <= pool[i] <= '9') || pool[i] == '_' || pool[i] == '-' by {
            assert(is_pool_char(pool[i]));
        }
    }
    if 1 <= pool.len() <= 64 && !is_pool_token(pool) {
        let i = choose|i: int| 0 <= i < pool.len() && !is_pool_char(#[trigger] pool[i]);
        assert(!is_pool_char(pool[i]));
    }
}

/// A name that is a token is its own encoding; any other is encoded by its hash in
/// sixteen small hexadecimal digits, and the empty one by a word.
pub proof fn law_pool_names_are_encoded(pool: Seq<char>)
    ensures
        is_pool_token(pool) ==> encoded_pool_name(pool) == pool,
        pool.len() == 0 ==> encoded_pool_name(pool) == "pool_empty"@,
        !is_pool_token(pool) && pool.len() > 0 ==> encoded_pool_name(pool) == "pool_"@ + text::hex(
            fnv1a(encode_utf8(pool)) as nat,
            16,
            false,
        ),
{
}

/// The hash takes in one byte after the other, by the offset and the prime of
/// 64-bit FNV-1a.
pub proof fn law_hash_takes_in_each_byte(bytes: Seq<u8>, b: u8)
    ensures
        fnv1a(Seq::<u8>::empty()) == 0xcbf2_9ce4_8422_2325u64,
        fnv1a(bytes.push(b)) == (((fnv1a(bytes) ^ (b as u64)) as nat * 0x0000_0100_0000_01b3nat)
            % 0x1_0000_0000_0000_0000) as u64,
{
    assert(bytes.push(b).drop_last() =~= bytes);
}

/// A name is refused for being empty, for its length in bytes, or for the first
/// character that no token may hold, which is named with its place.
pub proof fn law_refusal_names_the_character(pool: Seq<char>, e: SubjectNameError)
    requires
        pool_refused_for(pool, e),
    ensures
        e is EmptyPool <==> pool.len() == 0,
        e matches SubjectNameError::PoolTooLong { max } ==> max == 64 && encode_utf8(pool).len()
            > 64,
        e matches SubjectNameError::InvalidPoolCharacter { ch, index } ==> {
            &&& index < pool.len()
            &&& ch == pool[index as int]
            &&& !is_pool_char(ch)
            &&& forall|i: int| 0 <= i < index ==> is_pool_char(#[trigger] pool[i])
        },
{
    if pool.len() == 0 {
        assert(pool =~= Seq::<char>::empty());
        assert(encode_utf8(pool).len() == 0) by {
            assert(is_ascii_chars(pool));
            is_ascii_chars_encode_utf8(pool);
        }
    }
}

/// What a refusal of a pool name says: that there is none, how long it may be, or
/// which character stands where.
pub proof fn law_refusals_are_written_out(max: usize, ch: char, index: usize)
    ensures
        subject_error_text(SubjectNameError::EmptyPool) == "worker pool name must not be empty"@,
        subject_error_text(SubjectNameError::PoolTooLong { max })
            == "worker pool name must be at most "@ + text::decimal(max as nat)
            + " characters"@,
        subject_error_text(SubjectNameError::InvalidPoolCharacter { ch, index })
            == "worker pool name contains invalid character '"@ + seq![ch] + "' at byte "@
            + text::decimal(index as nat) + "; use ASCII letters, digits, '_' or '-'"@,
{
    let before = "worker pool name contains invalid character '"@;
    assert(before.push(ch) =~= before + seq![ch]);
}

} // verus!
