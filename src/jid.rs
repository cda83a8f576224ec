//! Job identifiers: the lower-case hex SHA-1 digest of a job's description
//! and a time seed.
use vstd::prelude::*;
use vstd::utf8::encode_utf8;
use sha1::Digest;
use crate::process::StartInfo;

verus! {

/// A job: a start description and whether it is restarted after it exits.
#[derive(Debug)]
pub struct JobDescription {
    pub start_info: StartInfo,
    pub auto_restart: bool,
}

/// The UTF-8 bytes of a string.
pub open spec fn utf8(s: Seq<char>) -> Seq<u8> {
    encode_utf8(s)
}

/// The bytes of an ASCII character.
pub open spec fn ascii(c: char) -> Seq<u8> {
    seq![c as u8]
}

/// `seed` as eight big-endian bytes.
pub open spec fn be64(seed: u64) -> Seq<u8> {
    seq![
        (seed >> 56u64) as u8,
        (seed >> 48u64) as u8,
        (seed >> 40u64) as u8,
        (seed >> 32u64) as u8,
        (seed >> 24u64) as u8,
        (seed >> 16u64) as u8,
        (seed >> 8u64) as u8,
        seed as u8,
    ]
}

/// Each argument followed by a comma.
pub open spec fn args_bytes(args: Seq<String>) -> Seq<u8>
    decreases args.len(),
{
    if args.len() == 0 {
        Seq::empty()
    } else {
        args_bytes(args.drop_last()) + utf8(args.last()@) + ascii(',')
    }
}

/// Each variable as `name:value` followed by a comma.
pub open spec fn env_bytes(env: Seq<(String, String)>) -> Seq<u8>
    decreases env.len(),
{
    if env.len() == 0 {
        Seq::empty()
    } else {
        env_bytes(env.drop_last()) + utf8(env.last().0@) + ascii(':') + utf8(env.last().1@)
            + ascii(',')
    }
}

/// The bytes hashed into the identifier of `desc` with time seed `seed`.
pub open spec fn digest_input(desc: &JobDescription, seed: u64) -> Seq<u8> {
    let info = &desc.start_info;
    be64(seed) + utf8(info.program@) + ascii('(') + match info.args {
        Some(a) => args_bytes(a@),
        None => Seq::empty(),
    } + ascii(')') + utf8(info.cwd@) + ascii('{') + env_bytes(info.env@) + ascii('}')
        + match info.log_path {
        Some(p) => utf8(p@),
        None => Seq::empty(),
    } + seq![if desc.auto_restart { 1u8 } else { 0u8 }]
}

/// The lower-case hex digit for `d < 16`.
pub open spec fn hex_digit(d: nat) -> char {
    if d < 10 {
        ((d + 48) as u8) as char
    } else {
        ((d + 87) as u8) as char
    }
}

/// Two lower-case hex digits per byte, most significant first.
pub open spec fn hex_of(b: Seq<u8>) -> Seq<char>
    decreases b.len(),
{
    if b.len() == 0 {
        Seq::empty()
    } else {
        hex_of(b.drop_last()) + seq![
            hex_digit((b.last() / 16) as nat),
            hex_digit((b.last() % 16) as nat),
        ]
    }
}

/// Whether every character of `s` is a lower-case hex digit.
pub open spec fn is_lower_hex(s: Seq<char>) -> bool {
    forall|i: int|
        0 <= i < s.len() ==> ('0' <= #[trigger] s[i] <= '9' || 'a' <= s[i] <= 'f')
}

/// The SHA-1 digest of `data`.
pub uninterp spec fn sha1_of(data: Seq<u8>) -> Seq<u8>;

/// Relies on `sha1::Sha1` through `digest::Digest::digest`: the SHA-1 digest
/// of `data`, which is 20 bytes long.
#[verifier::external_body]
fn sha1_digest(data: &[u8]) -> (r: Vec<u8>)
    ensures
        r@ == sha1_of(data@),
        r@.len() == 20,
{
    sha1::Sha1::digest(data).to_vec()
}

/// The hex rendering of `b` has two lower-case hex digits per byte.
pub proof fn lemma_hex_shape(b: Seq<u8>)
    ensures
        hex_of(b).len() == 2 * b.len(),
        is_lower_hex(hex_of(b)),
    decreases b.len(),
{
    if b.len() > 0 {
        lemma_hex_shape(b.drop_last());
        let hi = (b.last() / 16) as nat;
        let lo = (b.last() % 16) as nat;
        assert(hi < 16 && lo < 16);
        let t = seq![hex_digit(hi), hex_digit(lo)];
        assert(is_lower_hex(t));
        assert(is_lower_hex(hex_of(b.drop_last()) + t));
    }
}

/// Appends `src` to `dst`.
fn push_bytes(dst: &mut Vec<u8>, src: &[u8])
    ensures
        final(dst)@ == old(dst)@ + src@,
{
    let mut i: usize = 0;
    while i < src.len()
        invariant
            i <= src@.len(),
            dst@ == old(dst)@ + src@.subrange(0, i as int),
        decreases src@.len() - i,
    {
        dst.push(src[i]);
        i = i + 1;
        assert(src@.subrange(0, i as int) =~= src@.subrange(0, i - 1).push(src@[i - 1]));
    }
    assert(src@.subrange(0, src@.len() as int) =~= src@);
}

/// Appends the UTF-8 bytes of `s` to `dst`.
fn push_utf8(dst: &mut Vec<u8>, s: &String)
    ensures
        final(dst)@ == old(dst)@ + utf8(s@),
{
    push_bytes(dst, s.as_str().as_bytes());
}

/// The lower-case hex rendering of `bytes`.
pub fn hex_lower(bytes: &[u8]) -> (r: String)
    ensures
        r@ == hex_of(bytes@),
{
    let mut s = String::new();
    let mut i: usize = 0;
    while i < bytes.len()
        invariant
            i <= bytes@.len(),
            s@ == hex_of(bytes@.subrange(0, i as int)),
        decreases bytes@.len() - i,
    {
        let b = bytes[i];
        crate::text::push_char(&mut s, hex_char(b / 16));
        crate::text::push_char(&mut s, hex_char(b % 16));
        i = i + 1;
        assert(bytes@.subrange(0, i as int).drop_last() =~= bytes@.subrange(0, i - 1));
    }
    assert(bytes@.subrange(0, bytes@.len() as int) =~= bytes@);
    s
}

fn hex_char(d: u8) -> (c: char)
    requires
        d < 16,
    ensures
        c == hex_digit(d as nat),
{
    if d < 10 {
        (d + 48) as char
    } else {
        (d + 87) as char
    }
}

impl JobDescription {
    /// The bytes that identify this description under time seed `seed`.
    pub fn digest_input(&self, seed: u64) -> (r: Vec<u8>)
        ensures
            r@ == digest_input(self, seed),
    {
        let info = &self.start_info;
        let mut v: Vec<u8> = Vec::new();
        v.push((seed >> 56u64) as u8);
        v.push((seed >> 48u64) as u8);
        v.push((seed >> 40u64) as u8);
        v.push((seed >> 32u64) as u8);
        v.push((seed >> 24u64) as u8);
        v.push((seed >> 16u64) as u8);
        v.push((seed >> 8u64) as u8);
        v.push(seed as u8);
        assert(v@ =~= be64(seed));
        push_utf8(&mut v, &info.program);
        v.push(40u8);
        let ghost before_args = v@;
        match &info.args {
            Some(args) => {
                let mut i: usize = 0;
                while i < args.len()
                    invariant
                        i <= args@.len(),
                        v@ == before_args + args_bytes(args@.subrange(0, i as int)),
                    decreases args@.len() - i,
                {
                    push_utf8(&mut v, &args[i]);
                    v.push(44u8);
                    i = i + 1;
                    assert(args@.subrange(0, i as int).drop_last() =~= args@.subrange(0, i - 1));
                    assert(v@ =~= before_args + args_bytes(args@.subrange(0, i as int)));
                }
                assert(args@.subrange(0, args@.len() as int) =~= args@);
            },
            None => {
                assert(v@ =~= before_args + Seq::<u8>::empty());
            },
        }
        v.push(41u8);
        push_utf8(&mut v, &info.cwd);
        v.push(123u8);
        let ghost before_env = v@;
        let mut j: usize = 0;
        while j < info.env.len()
            invariant
                j <= info.env@.len(),
                v@ == before_env + env_bytes(info.env@.subrange(0, j as int)),
            decreases info.env@.len() - j,
        {
            push_utf8(&mut v, &info.env[j].0);
            v.push(58u8);
            push_utf8(&mut v, &info.env[j].1);
            v.push(44u8);
            j = j + 1;
            assert(info.env@.subrange(0, j as int).drop_last() =~= info.env@.subrange(0, j - 1));
            assert(v@ =~= before_env + env_bytes(info.env@.subrange(0, j as int)));
        }
        assert(info.env@.subrange(0, info.env@.len() as int) =~= info.env@);
        v.push(125u8);
        let ghost before_log = v@;
        match &info.log_path {
            Some(p) => {
                push_utf8(&mut v, p);
            },
            None => {
                assert(v@ =~= before_log + Seq::<u8>::empty());
            },
        }
        v.push(if self.auto_restart { 1u8 } else { 0u8 });
        assert(v@ =~= digest_input(self, seed));
        v
    }

    /// The job identifier for time seed `seed`: 40 lower-case hex digits of
    /// the SHA-1 digest of `digest_input`.
    pub fn digest(&self, seed: u64) -> (r: String)
        ensures
            r@ == hex_of(sha1_of(digest_input(self, seed))),
            r@.len() == 40,
            is_lower_hex(r@),
    {
        let input = self.digest_input(seed);
        let d = sha1_digest(input.as_slice());
        proof {
            lemma_hex_shape(d@);
        }
        hex_lower(d.as_slice())
    }
}

} // verus!
