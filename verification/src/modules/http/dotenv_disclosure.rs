//! Servers that hand out their `.env` file.
use vstd::prelude::*;
use crate::modules::http::{
    kind_description, kind_name, next_step, FindingKind, HttpReply, ScanStep,
};
use crate::modules::{is_success, is_success_code, HttpModule, Module};

verus! {

/// The greatest announced length, in bytes, that still passes for a `.env`
/// file.
pub const MAX_LENGTH: u64 = 10_000;

/// The bytes of `text/plain`, the one content type that passes for a `.env`
/// file.
pub open spec fn text_plain() -> Seq<u8> {
    seq![116u8, 101u8, 120u8, 116u8, 47u8, 112u8, 108u8, 97u8, 105u8, 110u8]
}

/// Whether a reply passes for a `.env` file: a success that announces no
/// more than `MAX_LENGTH` bytes, a missing announcement counting as none, and
/// whose content type, where it names one, is `text/plain`.
pub open spec fn env_exposed(reply: HttpReply) -> bool {
    &&& is_success_code(reply.status)
    &&& match reply.content_length {
        Some(length) => length <= MAX_LENGTH,
        None => true,
    }
    &&& match reply.content_type {
        Some(value) => value@ == text_plain(),
        None => true,
    }
}

/// For each reply, whether there was one and it passes for a `.env` file.
pub open spec fn env_flags(replies: Seq<Option<HttpReply>>) -> Seq<bool> {
    Seq::new(
        replies.len(),
        |i: int|
            match replies[i] {
                Some(reply) => env_exposed(reply),
                None => false,
            },
    )
}

/// Whether the bytes spell `text/plain`.
fn is_text_plain(value: &Vec<u8>) -> (r: bool)
    ensures
        r == (value@ == text_plain()),
{
    let expected: [u8; 10] = [116, 101, 120, 116, 47, 112, 108, 97, 105, 110];
    if value.len() != 10 {
        return false;
    }
    let mut i: usize = 0;
    while i < 10
        invariant
            i <= 10,
            value@.len() == 10,
            expected@ == text_plain(),
            forall|k: int| 0 <= k < i ==> value@[k] == text_plain()[k],
        decreases 10 - i,
    {
        if value[i] != expected[i] {
            return false;
        }
        i += 1;
    }
    assert(value@ =~= text_plain());
    true
}

/// The check for a disclosed `.env` file.
pub struct DotEnvDisclosure;

impl DotEnvDisclosure {
    /// The module; it holds no state.
    pub fn new() -> (m: Self)
        ensures
            m == DotEnvDisclosure,
    {
        DotEnvDisclosure
    }

    /// Whether a reply passes for a `.env` file.
    pub fn exposes(reply: &HttpReply) -> (r: bool)
        ensures
            r == env_exposed(*reply),
    {
        if !is_success(reply.status) {
            return false;
        }
        let announced = match reply.content_length {
            Some(length) => length,
            None => 0,
        };
        if announced > MAX_LENGTH {
            return false;
        }
        match &reply.content_type {
            Some(value) => is_text_plain(value),
            None => true,
        }
    }
}

impl Module for DotEnvDisclosure {
    open spec fn name_text(&self) -> Seq<char> {
        kind_name(FindingKind::DotEnvDisclosure)
    }

    open spec fn description_text(&self) -> Seq<char> {
        kind_description(FindingKind::DotEnvDisclosure)
    }

    fn name(&self) -> (r: String) {
        String::from_str("http/dotenv_disclosure")
    }

    fn description(&self) -> (r: String) {
        String::from_str("Check if .env is publicly accessible")
    }
}

impl HttpModule for DotEnvDisclosure {
    open spec fn kind(&self) -> FindingKind {
        FindingKind::DotEnvDisclosure
    }

    open spec fn path(&self) -> Seq<char> {
        "/.env"@
    }

    open spec fn reads_body(&self) -> bool {
        false
    }

    /// For each reply, whether there was one and it passes for a `.env` file,
    /// judged by its head alone.
    open spec fn flags(&self, replies: Seq<Option<HttpReply>>) -> Seq<bool> {
        env_flags(replies)
    }

    fn wants_body(&self, status: u16) -> (wanted: bool) {
        false
    }

    fn scan(&self, endpoint: &str, replies: &Vec<Option<HttpReply>>) -> (step: ScanStep) {
        let mut flagged: Vec<bool> = Vec::new();
        let mut i: usize = 0;
        while i < replies.len()
            invariant
                i <= replies.len(),
                flagged@ == env_flags(replies@).take(i as int),
            decreases replies.len() - i,
        {
            let hit = match &replies[i] {
                Some(reply) => DotEnvDisclosure::exposes(reply),
                None => false,
            };
            flagged.push(hit);
            i += 1;
            assert(flagged@ =~= env_flags(replies@).take(i as int));
        }
        assert(flagged@ =~= env_flags(replies@));
        next_step(FindingKind::DotEnvDisclosure, endpoint, "/.env", &flagged)
    }
}

} // verus!
