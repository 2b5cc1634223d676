//! Backup command: when a backup may be published, which file is the most
//! recent one, and under which link it is published.

use crate::utils::text::{decimal_digits, decimal_string, lemma_text_of_bytes, split_around};
use rand::Rng;
use vstd::prelude::*;
use vstd::string::*;
use vstd::utf8::{decode_utf8, encode_utf8};

verus! {

/// Seconds that must pass between two publications by anyone.
pub const GLOBAL_COOLDOWN_SECS: u64 = 2 * 60 * 60;

/// Seconds that must pass between two publications by the same user.
pub const USER_COOLDOWN_SECS: u64 = 24 * 60 * 60;

/// Time that has passed since an earlier publication: whole seconds, and
/// the nanoseconds beyond them.
#[derive(Debug, Clone, Copy, PartialEq, Eq)]
pub struct Elapsed {
    pub secs: u64,
    pub nanos: u32,
}

/// Time left to wait, in whole hours and whole minutes beyond them.
#[derive(Debug, Clone, Copy, PartialEq, Eq)]
pub struct Wait {
    pub hours: u64,
    pub minutes: u64,
}

/// Whether a backup may be published now.
#[derive(Debug, Clone, Copy, PartialEq, Eq)]
pub enum BackupDecision {
    /// The user has published within the last day.
    UserCooldown(Wait),
    /// Someone has published within the last two hours.
    GlobalCooldown(Wait),
    /// Nothing stands in the way.
    Proceed,
}

/// Whole seconds left of a cooldown, where it has not yet passed. A
/// started second counts as passed.
pub open spec fn seconds_left(cooldown: u64, elapsed: Elapsed) -> Option<nat> {
    if elapsed.secs >= cooldown {
        None
    } else if elapsed.nanos > 0 {
        Some((cooldown - elapsed.secs - 1) as nat)
    } else {
        Some((cooldown - elapsed.secs) as nat)
    }
}

/// Seconds as whole hours and whole minutes beyond them.
pub open spec fn wait_of(secs: nat) -> Wait {
    Wait { hours: (secs / 3600) as u64, minutes: ((secs % 3600) / 60) as u64 }
}

/// Time left of a cooldown since the last publication, if there was one
/// and the cooldown has not passed.
pub open spec fn wait_left(cooldown: u64, last: Option<Elapsed>) -> Option<Wait> {
    match last {
        None => None,
        Some(elapsed) => match seconds_left(cooldown, elapsed) {
            None => None,
            Some(secs) => Some(wait_of(secs)),
        },
    }
}

/// The decision on a publication: the user's own cooldown is looked at
/// first, then the one that holds for everyone.
pub open spec fn backup_decision(user: Option<Elapsed>, global: Option<Elapsed>) -> BackupDecision {
    if wait_left(USER_COOLDOWN_SECS, user) is Some {
        BackupDecision::UserCooldown(wait_left(USER_COOLDOWN_SECS, user)->0)
    } else if wait_left(GLOBAL_COOLDOWN_SECS, global) is Some {
        BackupDecision::GlobalCooldown(wait_left(GLOBAL_COOLDOWN_SECS, global)->0)
    } else {
        BackupDecision::Proceed
    }
}

/// Time left of a cooldown since the last publication.
pub fn cooldown_left(cooldown: u64, last: Option<Elapsed>) -> (r: Option<Wait>)
    ensures
        r == wait_left(cooldown, last),
{
    match last {
        None => None,
        Some(elapsed) => {
            if elapsed.secs >= cooldown {
                return None;
            }
            let mut secs: u64 = cooldown - elapsed.secs;
            if elapsed.nanos > 0 {
                secs = secs - 1;
            }
            Some(Wait { hours: secs / 3600, minutes: (secs % 3600) / 60 })
        },
    }
}

/// Decides whether a user may publish a backup now, given the time since
/// that user's last publication and since anyone's.
pub fn decide_backup(user: Option<Elapsed>, global: Option<Elapsed>) -> (r: BackupDecision)
    ensures
        r == backup_decision(user, global),
{
    if let Some(wait) = cooldown_left(USER_COOLDOWN_SECS, user) {
        return BackupDecision::UserCooldown(wait);
    }
    if let Some(wait) = cooldown_left(GLOBAL_COOLDOWN_SECS, global) {
        return BackupDecision::GlobalCooldown(wait);
    }
    BackupDecision::Proceed
}

/// "s" for every number but one.
pub open spec fn plural(n: u64) -> Seq<char> {
    if n == 1 {
        ""@
    } else {
        "s"@
    }
}

/// The words for a time to wait.
pub open spec fn wait_words(wait: Wait) -> Seq<char> {
    " Please wait "@ + decimal_digits(wait.hours as nat) + " hour"@ + plural(wait.hours) + " and "@
        + decimal_digits(wait.minutes as nat) + " minute"@ + plural(wait.minutes) + "."@
}

/// What a user is told who may not publish yet.
pub open spec fn cooldown_notice(decision: BackupDecision) -> Option<Seq<char>> {
    match decision {
        BackupDecision::UserCooldown(wait) => Some(
            "\u{23f3} Backup command is on cooldown."@ + wait_words(wait),
        ),
        BackupDecision::GlobalCooldown(wait) => Some(
            "\u{23f3} Backup command is globally on cooldown."@ + wait_words(wait),
        ),
        BackupDecision::Proceed => None,
    }
}

fn plural_text(n: u64) -> (r: &'static str)
    ensures
        r@ == plural(n),
{
    if n == 1 {
        ""
    } else {
        "s"
    }
}

fn append_wait(message: &mut String, wait: Wait)
    ensures
        final(message)@ == old(message)@ + wait_words(wait),
{
    let ghost before = message@;
    message.append(" Please wait ");
    message.append(decimal_string(wait.hours).as_str());
    message.append(" hour");
    message.append(plural_text(wait.hours));
    message.append(" and ");
    message.append(decimal_string(wait.minutes).as_str());
    message.append(" minute");
    message.append(plural_text(wait.minutes));
    message.append(".");
    assert(message@ =~= before + wait_words(wait));
}

/// The notice for a user who may not publish yet; none for one who may.
pub fn cooldown_message(decision: BackupDecision) -> (r: Option<String>)
    ensures
        match r {
            Some(text) => cooldown_notice(decision) == Some(text@),
            None => cooldown_notice(decision) is None,
        },
{
    match decision {
        BackupDecision::UserCooldown(wait) => {
            let mut message = String::from_str("\u{23f3} Backup command is on cooldown.");
            append_wait(&mut message, wait);
            Some(message)
        },
        BackupDecision::GlobalCooldown(wait) => {
            let mut message = String::from_str("\u{23f3} Backup command is globally on cooldown.");
            append_wait(&mut message, wait);
            Some(message)
        },
        BackupDecision::Proceed => None,
    }
}

/// What is known of one entry of the backup folder.
#[derive(Debug, Clone, Copy, PartialEq, Eq)]
pub struct BackupEntry {
    /// The entry is a file, not a directory or anything else.
    pub is_file: bool,
    /// When the entry was last modified, in nanoseconds since the start of
    /// 1970, where that is known.
    pub modified: Option<i128>,
}

/// Whether an entry can be the most recent backup: it is a file and its
/// time of modification is known.
pub open spec fn eligible(entry: BackupEntry) -> bool {
    entry.is_file && entry.modified is Some
}

/// Whether the entry at `index` is the most recent backup among
/// `entries`: it is eligible, no eligible entry is newer, and none before
/// it is as new.
pub open spec fn is_most_recent(entries: Seq<BackupEntry>, index: int) -> bool {
    &&& 0 <= index < entries.len()
    &&& eligible(entries[index])
    &&& forall|j: int|
        0 <= j < entries.len() && eligible(#[trigger] entries[j]) ==> entries[j].modified->0
            <= entries[index].modified->0
    &&& forall|j: int|
        0 <= j < index && eligible(#[trigger] entries[j]) ==> entries[j].modified->0
            < entries[index].modified->0
}

/// Finds the most recent backup among the entries of the backup folder, in
/// the order in which the folder lists them.
pub fn most_recent(entries: &Vec<BackupEntry>) -> (r: Option<usize>)
    ensures
        match r {
            Some(index) => is_most_recent(entries@, index as int),
            None => forall|j: int| 0 <= j < entries@.len() ==> !eligible(#[trigger] entries@[j]),
        },
{
    let mut best: Option<(usize, i128)> = None;
    let mut i: usize = 0;
    while i < entries.len()
        invariant
            i <= entries@.len(),
            match best {
                Some((index, time)) => index < i && entries@[index as int].modified == Some(time)
                    && is_most_recent(entries@.take(i as int), index as int),
                None => forall|j: int| 0 <= j < i ==> !eligible(#[trigger] entries@[j]),
            },
        decreases entries@.len() - i,
    {
        let entry = entries[i];
        let ghost before = entries@.take(i as int);
        let ghost after = entries@.take(i + 1);
        proof {
            assert forall|j: int| 0 <= j < i implies #[trigger] after[j] == before[j] by {}
            assert(after[i as int] == entry);
        }
        if entry.is_file {
            if let Some(modified) = entry.modified {
                match best {
                    None => {
                        best = Some((i, modified));
                    },
                    Some((_, time)) => {
                        if modified > time {
                            best = Some((i, modified));
                        }
                    },
                }
            }
        }
        proof {
            if let Some((index, _)) = best {
                assert(is_most_recent(after, index as int)) by {
                    assert forall|j: int|
                        0 <= j < after.len() && eligible(#[trigger] after[j]) implies after[j].modified->0
                        <= after[index as int].modified->0 by {
                        if j < i {
                            assert(after[j] == before[j]);
                        }
                    }
                    assert forall|j: int|
                        0 <= j < index && eligible(#[trigger] after[j]) implies after[j].modified->0
                        < after[index as int].modified->0 by {
                        assert(after[j] == before[j]);
                    }
                }
            }
        }
        i = i + 1;
    }
    proof {
        assert(entries@.take(i as int) =~= entries@);
    }
    match best {
        Some((index, _)) => Some(index),
        None => None,
    }
}

/// Number of characters in a publication token.
pub const TOKEN_LEN: usize = 12;

/// The characters that a publication token is made of.
pub const TOKEN_ALPHABET: &'static str =
    "ABCDEFGHIJKLMNOPQRSTUVWXYZabcdefghijklmnopqrstuvwxyz0123456789";

/// The characters that a publication token is made of: the 26 capital
/// letters, the 26 small letters and the 10 digits.
pub open spec fn token_alphabet() -> Seq<char> {
    "ABCDEFGHIJKLMNOPQRSTUVWXYZabcdefghijklmnopqrstuvwxyz0123456789"@
}

/// Whether a text is a publication token: twelve characters of the
/// alphabet.
pub open spec fn is_token(text: Seq<char>) -> bool {
    &&& text.len() == TOKEN_LEN
    &&& forall|i: int| 0 <= i < text.len() ==> token_alphabet().contains(#[trigger] text[i])
}

/// `thread_rng` and `Rng::gen_range` of the rand crate: a number drawn at
/// random from `0..bound`. Nothing is said of which one. The generator
/// is seeded by the system on its first use in a thread, and stops the
/// program where the system gives it no seed.
#[verifier::external_body]
fn random_index(bound: usize) -> (r: usize)
    requires
        bound > 0,
    ensures
        r < bound,
{
    rand::thread_rng().gen_range(0..bound)
}

/// The token that a row of indices into the alphabet spells, where each
/// of them lies within the alphabet.
pub open spec fn token_of(indices: Seq<usize>) -> Option<Seq<char>> {
    if forall|i: int| 0 <= i < indices.len() ==> #[trigger] indices[i] < token_alphabet().len() {
        Some(Seq::new(indices.len(), |i: int| token_alphabet()[indices[i] as int]))
    } else {
        None
    }
}

proof fn lemma_alphabet()
    ensures
        token_alphabet().len() == 62,
        TOKEN_ALPHABET@ == token_alphabet(),
        vstd::utf8::is_ascii_chars(token_alphabet()),
{
    reveal_strlit("ABCDEFGHIJKLMNOPQRSTUVWXYZabcdefghijklmnopqrstuvwxyz0123456789");
}

/// Spells the text that a row of indices into the alphabet stands for.
pub fn token_from(indices: &Vec<usize>) -> (r: Option<String>)
    ensures
        match r {
            Some(text) => token_of(indices@) == Some(text@),
            None => token_of(indices@) is None,
        },
{
    proof {
        lemma_alphabet();
    }
    let mut text = String::new();
    let mut i: usize = 0;
    while i < indices.len()
        invariant
            i <= indices@.len(),
            token_alphabet().len() == 62,
            TOKEN_ALPHABET@ == token_alphabet(),
            vstd::utf8::is_ascii_chars(token_alphabet()),
            forall|j: int| 0 <= j < i ==> #[trigger] indices@[j] < 62,
            text@.len() == i,
            forall|j: int| 0 <= j < i ==> text@[j] == token_alphabet()[indices@[j] as int],
        decreases indices@.len() - i,
    {
        let index: usize = indices[i];
        if index >= 62 {
            return None;
        }
        let letter = TOKEN_ALPHABET.substring_ascii(index, index + 1);
        assert(letter@ =~= seq![token_alphabet()[index as int]]);
        text.append(letter);
        i = i + 1;
    }
    assert(text@ =~= token_of(indices@)->0);
    Some(text)
}

/// Draws a fresh publication token at random.
pub fn generate_token() -> (r: String)
    ensures
        is_token(r@),
{
    proof {
        lemma_alphabet();
    }
    let mut indices: Vec<usize> = Vec::new();
    while indices.len() < TOKEN_LEN
        invariant
            indices@.len() <= TOKEN_LEN,
            token_alphabet().len() == 62,
            forall|j: int| 0 <= j < indices@.len() ==> #[trigger] indices@[j] < 62,
        decreases TOKEN_LEN - indices@.len(),
    {
        let index = random_index(62);
        indices.push(index);
    }
    let token = token_from(&indices);
    assert(token is Some);
    let text = token.unwrap();
    assert forall|i: int| 0 <= i < text@.len() implies token_alphabet().contains(
        #[trigger] text@[i],
    ) by {
        assert(text@[i] == token_alphabet()[indices@[i] as int]);
    }
    text
}

/// The bytes of a text without the slashes at its end.
pub open spec fn strip_trailing_slashes(bytes: Seq<u8>) -> Seq<u8>
    decreases bytes.len(),
{
    if bytes.len() > 0 && bytes.last() == 0x2F {
        strip_trailing_slashes(bytes.drop_last())
    } else {
        bytes
    }
}

/// The link under which a file is published: the base URL without the
/// slashes at its end, then the token and the name of the file, each after
/// one slash.
pub open spec fn published_url(base: Seq<char>, token: Seq<char>, file_name: Seq<char>) -> Seq<
    char,
> {
    decode_utf8(strip_trailing_slashes(encode_utf8(base))) + "/"@ + token + "/"@ + file_name
}

fn without_trailing_slashes(base: &str) -> (r: &str)
    ensures
        r.spec_bytes() == strip_trailing_slashes(base.spec_bytes()),
{
    let bytes = base.as_bytes();
    let mut end: usize = bytes.len();
    proof {
        assert(bytes@.take(end as int) =~= bytes@);
    }
    while end > 0 && bytes[end - 1] == 0x2F
        invariant
            end <= bytes@.len(),
            bytes@ == base.spec_bytes(),
            forall|j: int| end <= j < bytes@.len() ==> bytes@[j] == 0x2F,
            strip_trailing_slashes(bytes@) == strip_trailing_slashes(bytes@.take(end as int)),
        decreases end,
    {
        proof {
            assert(bytes@.take(end as int).drop_last() =~= bytes@.take(end - 1));
        }
        end = end - 1;
    }
    if end == bytes.len() {
        base
    } else {
        let (kept, _) = split_around(base, end);
        assert(kept.spec_bytes() =~= bytes@.take(end as int));
        kept
    }
}

/// The link under which a file is published.
pub fn publish_url(base_url: &str, token: &str, file_name: &str) -> (r: String)
    ensures
        r@ == published_url(base_url@, token@, file_name@),
{
    let base = without_trailing_slashes(base_url);
    proof {
        lemma_text_of_bytes(base);
    }
    let mut url = String::from_str(base);
    url.append("/");
    url.append(token);
    url.append("/");
    url.append(file_name);
    url
}

} // verus!
