//! Parser for the fixed-format memory report that a server sends in answer to
//! a statistics request.
//!
//! The grammar is positional: seventeen lines, each opened by a literal label
//! and holding between one and eight decimal counters. It is stated below as
//! spec functions over the UTF-8 bytes of the input; every executable parser
//! is proved to compute exactly its spec function. The spec functions of the
//! two leaves and of the whole report are opaque, so that a caller's proof
//! does not unfold the grammar unasked: `reveal` them to reason about a given
//! text.

use crate::stats::StatsZ;
use vstd::prelude::*;
use vstd::string::*;
use vstd::utf8::*;

verus! {

/// The report did not follow the grammar. Nothing of it is kept.
#[derive(Debug, Clone, Copy, PartialEq, Eq, Structural)]
pub struct MalformedReport;

/// What a parser makes of an input: `None` where it does not match, else the
/// bytes it left unread and the value it read.
pub type Parse<T> = Option<(Seq<u8>, T)>;

/// An executable parser's result `r` is the executable form of `expected`.
pub open spec fn parsed<T>(r: Result<(&str, T), MalformedReport>, expected: Parse<T>) -> bool {
    match expected {
        Some((rest, value)) => r matches Ok((s, v)) && s.spec_bytes() == rest && v == value,
        None => r is Err,
    }
}

/// An ASCII digit.
pub open spec fn is_digit(b: u8) -> bool {
    0x30 <= b <= 0x39
}

/// How many ASCII digits `s` starts with.
pub open spec fn digit_run(s: Seq<u8>) -> nat
    decreases s.len(),
{
    if s.len() > 0 && is_digit(s[0]) {
        1 + digit_run(s.drop_first())
    } else {
        0
    }
}

/// The number that a sequence of ASCII digits writes in base ten.
pub open spec fn decimal_value(digits: Seq<u8>) -> nat
    decreases digits.len(),
{
    if digits.len() == 0 {
        0
    } else {
        10 * decimal_value(digits.drop_last()) + (digits.last() - 0x30) as nat
    }
}

/// The literal `prefix`: what follows it in `input`, or `None` where `input`
/// does not start with it.
#[verifier::opaque]
pub open spec fn spec_tag(prefix: Seq<u8>, input: Seq<u8>) -> Option<Seq<u8>> {
    if prefix.is_prefix_of(input) {
        Some(input.skip(prefix.len() as int))
    } else {
        None
    }
}

/// The longest run of digits at the start, which must not be empty and must
/// write a number that fits in 64 bits. Leading zeros are digits like any other.
#[verifier::opaque]
pub open spec fn spec_parse_number(input: Seq<u8>) -> Parse<u64> {
    let n = digit_run(input);
    let value = decimal_value(input.take(n as int));
    if n == 0 || value > u64::MAX {
        None
    } else {
        Some((input.skip(n as int), value as u64))
    }
}

/// A run of digits never reaches past the end.
pub proof fn lemma_digit_run_bounded(s: Seq<u8>)
    ensures
        digit_run(s) <= s.len(),
    decreases s.len(),
{
    if s.len() > 0 && is_digit(s[0]) {
        lemma_digit_run_bounded(s.drop_first());
    }
}

/// The run of digits is the one index before which all bytes are digits and
/// at which the input ends or holds something else.
pub proof fn lemma_digit_run_is(s: Seq<u8>, n: int)
    requires
        0 <= n <= s.len(),
        forall|j: int| 0 <= j < n ==> is_digit(#[trigger] s[j]),
        n == s.len() || !is_digit(s[n]),
    ensures
        digit_run(s) == n,
    decreases n,
{
    if n > 0 {
        let t = s.drop_first();
        assert forall|j: int| 0 <= j < n - 1 implies is_digit(#[trigger] t[j]) by {
            assert(t[j] == s[j + 1]);
        }
        lemma_digit_run_is(t, n - 1);
    }
}

/// Where the byte at `i` and all before it are digits, the run is longer than `i`.
pub proof fn lemma_digit_run_reaches(s: Seq<u8>, i: int)
    requires
        0 <= i < s.len(),
        forall|j: int| 0 <= j <= i ==> is_digit(#[trigger] s[j]),
    ensures
        digit_run(s) > i,
    decreases i,
{
    if i > 0 {
        let t = s.drop_first();
        assert forall|j: int| 0 <= j <= i - 1 implies is_digit(#[trigger] t[j]) by {
            assert(t[j] == s[j + 1]);
        }
        lemma_digit_run_reaches(t, i - 1);
    }
}

/// More digits never write a smaller number.
pub proof fn lemma_decimal_value_grows(s: Seq<u8>, i: int, j: int)
    requires
        0 <= i <= j <= s.len(),
    ensures
        decimal_value(s.take(i)) <= decimal_value(s.take(j)),
    decreases j - i,
{
    if i < j {
        lemma_decimal_value_grows(s, i, j - 1);
        assert(s.take(j).drop_last() =~= s.take(j - 1));
    }
}

/// A prefix that is itself well-formed UTF-8 ends where a character ends.
pub proof fn lemma_valid_prefix_ends_on_boundary(bytes: Seq<u8>, n: int)
    requires
        valid_utf8(bytes),
        partial_valid_utf8(bytes, n),
    ensures
        is_char_boundary(bytes, n),
    decreases bytes.len(),
{
    if n > 0 {
        let head = bytes.subrange(0, n);
        let width = length_of_first_scalar(bytes);
        assert(head[0] == bytes[0]);
        assert(valid_first_scalar(head));
        assert(valid_first_scalar(bytes));
        assert(width == length_of_first_scalar(head));
        assert(width <= n);
        let tail = pop_first_scalar(bytes);
        assert(tail.subrange(0, n - width) =~= pop_first_scalar(head));
        lemma_valid_prefix_ends_on_boundary(tail, n - width);
    }
}

/// Matches the literal `prefix` at the start of `input`.
pub fn tag<'a>(prefix: &str, input: &'a str) -> (r: Result<&'a str, MalformedReport>)
    ensures
        match spec_tag(prefix.spec_bytes(), input.spec_bytes()) {
            Some(rest) => r matches Ok(s) && s.spec_bytes() == rest,
            None => r is Err,
        },
{
    reveal(spec_tag);
    let want = prefix.as_bytes();
    let have = input.as_bytes();
    if want.len() > have.len() {
        return Err(MalformedReport);
    }
    let mut i: usize = 0;
    while i < want.len()
        invariant
            i <= want.len() <= have.len(),
            want@ == prefix.spec_bytes(),
            have@ == input.spec_bytes(),
            forall|j: int| 0 <= j < i ==> want@[j] == have@[j],
        decreases want.len() - i,
    {
        reveal(spec_tag);
        if want[i] != have[i] {
            return Err(MalformedReport);
        }
        i += 1;
    }
    proof {
        assert(have@.subrange(0, i as int) =~= want@);
        encode_utf8_valid_utf8(prefix@);
        encode_utf8_valid_utf8(input@);
        lemma_valid_prefix_ends_on_boundary(have@, i as int);
    }
    let (_, rest) = input.split_at(i);
    Ok(rest)
}

/// Reads a decimal number of up to 64 bits.
pub fn parse_number(input: &str) -> (r: Result<(&str, u64), MalformedReport>)
    ensures
        parsed(r, spec_parse_number(input.spec_bytes())),
{
    reveal(spec_parse_number);
    let bytes = input.as_bytes();
    let mut i: usize = 0;
    let mut value: u64 = 0;
    while i < bytes.len() && 0x30 <= bytes[i] && bytes[i] <= 0x39
        invariant
            i <= bytes.len(),
            bytes@ == input.spec_bytes(),
            forall|j: int| 0 <= j < i ==> is_digit(#[trigger] bytes@[j]),
            value == decimal_value(bytes@.take(i as int)),
        decreases bytes.len() - i,
    {
        let digit: u64 = (bytes[i] - 0x30) as u64;
        proof {
            reveal(spec_parse_number);
            assert(bytes@.take(i + 1).drop_last() =~= bytes@.take(i as int));
            lemma_digit_run_bounded(bytes@);
            if digit_run(bytes@) <= i {
                lemma_digit_run_reaches(bytes@, i as int);
            }
            lemma_decimal_value_grows(bytes@, i + 1, digit_run(bytes@) as int);
        }
        let shifted = match value.checked_mul(10) {
            Some(v) => v,
            None => {
                return Err(MalformedReport);
            },
        };
        value = match shifted.checked_add(digit) {
            Some(v) => v,
            None => {
                return Err(MalformedReport);
            },
        };
        i += 1;
    }
    proof {
        lemma_digit_run_is(bytes@, i as int);
    }
    if i == 0 {
        return Err(MalformedReport);
    }
    proof {
        assert forall|j: int| 0 <= j < i implies #[trigger] is_leading_byte_width_1(bytes@[j]) by {
            assert(is_digit(bytes@[j]));
        }
        encode_utf8_valid_utf8(input@);
        assert(bytes@.subrange(0, 0) =~= Seq::<u8>::empty());
        assert(partial_valid_utf8(bytes@, 0));
        partial_valid_utf8_extend_ascii_block(bytes@, 0, i as int);
        lemma_valid_prefix_ends_on_boundary(bytes@, i as int);
    }
    let (_, rest) = input.split_at(i);
    Ok((rest, value))
}

/// The label `prefix`, a count, and the count's bytes in parentheses:
/// `prefix N(M)`.
pub open spec fn spec_values(prefix: Seq<u8>, input: Seq<u8>) -> Parse<(u64, u64)> {
    match spec_tag(prefix, input) {
        None => None,
        Some(r) => match spec_parse_number(r) {
            None => None,
            Some((r, v)) => match spec_tag("(".spec_bytes(), r) {
                None => None,
                Some(r) => match spec_parse_number(r) {
                    None => None,
                    Some((r, v2)) => match spec_tag(")".spec_bytes(), r) {
                        None => None,
                        Some(r) => Some((r, (v, v2))),
                    },
                },
            },
        },
    }
}

/// Two labelled pairs, one after the other: `sep1 N(M)sep2 N(M)`.
pub open spec fn spec_parse_line_4_values(sep1: Seq<u8>, sep2: Seq<u8>, input: Seq<u8>) -> Parse<
    (u64, u64, u64, u64),
> {
    match spec_values(sep1, input) {
        None => None,
        Some((r, (v1, v2))) => match spec_values(sep2, r) {
            None => None,
            Some((r, (v3, v4))) => Some((r, (v1, v2, v3, v4))),
        },
    }
}

/// Three labelled bare numbers: `sep1 N sep2 N sep3 N`, the blanks being part
/// of the labels.
pub open spec fn spec_parse_line_3_values(
    sep1: Seq<u8>,
    sep2: Seq<u8>,
    sep3: Seq<u8>,
    input: Seq<u8>,
) -> Parse<(u64, u64, u64)> {
    match spec_tag(sep1, input) {
        None => None,
        Some(r) => match spec_parse_number(r) {
            None => None,
            Some((r, v1)) => match spec_tag(sep2, r) {
                None => None,
                Some(r) => match spec_parse_number(r) {
                    None => None,
                    Some((r, v2)) => match spec_tag(sep3, r) {
                        None => None,
                        Some(r) => match spec_parse_number(r) {
                            None => None,
                            Some((r, v3)) => Some((r, (v1, v2, v3))),
                        },
                    },
                },
            },
        },
    }
}

/// A line feed.
pub open spec fn spec_newline(input: Seq<u8>) -> Option<Seq<u8>> {
    spec_tag("\n".spec_bytes(), input)
}

/// What `line` read, provided a line feed follows it.
pub open spec fn ended<T>(line: Parse<T>) -> Parse<T> {
    match line {
        None => None,
        Some((r, v)) => match spec_newline(r) {
            None => None,
            Some(r) => Some((r, v)),
        },
    }
}

/// `Users 10175(1221000) Invites 0(0)`
pub open spec fn spec_parse_users_line(input: Seq<u8>) -> Parse<(u64, u64, u64, u64)> {
    spec_parse_line_4_values("Users ".spec_bytes(), " Invites ".spec_bytes(), input)
}

/// `User channels 30651(735624) Aways 496(14282)`
pub open spec fn spec_parse_user_channels_line(input: Seq<u8>) -> Parse<(u64, u64, u64, u64)> {
    spec_parse_line_4_values("User channels ".spec_bytes(), " Aways ".spec_bytes(), input)
}

/// `Attached confs 24(576)`
pub open spec fn spec_parse_attached_confs(input: Seq<u8>) -> Parse<(u64, u64)> {
    spec_values("Attached confs ".spec_bytes(), input)
}

/// `Conflines 0(0)`
pub open spec fn spec_parse_conflines(input: Seq<u8>) -> Parse<(u64, u64)> {
    spec_values("Conflines ".spec_bytes(), input)
}

/// `Classes 12(960)`
pub open spec fn spec_parse_classes(input: Seq<u8>) -> Parse<(u64, u64)> {
    spec_values("Classes ".spec_bytes(), input)
}

/// `Channels 1988(816734)`
pub open spec fn spec_parse_channels(input: Seq<u8>) -> Parse<(u64, u64)> {
    spec_values("Channels ".spec_bytes(), input)
}

/// `Bans 826(66080) Exceptions 31(2480) Invex 552(44160) Quiets 131(10480)`
pub open spec fn spec_parse_bans(input: Seq<u8>) -> Parse<
    (u64, u64, u64, u64, u64, u64, u64, u64),
> {
    match spec_parse_line_4_values("Bans ".spec_bytes(), " Exceptions ".spec_bytes(), input) {
        None => None,
        Some((r, (v1, v2, v3, v4))) => match spec_parse_line_4_values(
            " Invex ".spec_bytes(),
            " Quiets ".spec_bytes(),
            r,
        ) {
            None => None,
            Some((r, (v5, v6, v7, v8))) => Some((r, (v1, v2, v3, v4, v5, v6, v7, v8))),
        },
    }
}

/// `Channel members 30651(735624) invite 0(0)`
pub open spec fn spec_parse_channel_members(input: Seq<u8>) -> Parse<(u64, u64, u64, u64)> {
    spec_parse_line_4_values("Channel members ".spec_bytes(), " invite ".spec_bytes(), input)
}

/// `Whowas array 15000(5756672)`
pub open spec fn spec_parse_whowas(input: Seq<u8>) -> Parse<(u64, u64)> {
    spec_values("Whowas array ".spec_bytes(), input)
}

/// `Hash: client 131072(3145728) chan 65536(1572864)`
pub open spec fn spec_parse_hash_line(input: Seq<u8>) -> Parse<(u64, u64, u64, u64)> {
    spec_parse_line_4_values("Hash: client ".spec_bytes(), " chan ".spec_bytes(), input)
}

/// `linebuf 0(0)`
pub open spec fn spec_parse_linebuf(input: Seq<u8>) -> Parse<(u64, u64)> {
    spec_values("linebuf ".spec_bytes(), input)
}

/// `scache 8(1152)`
pub open spec fn spec_parse_scache_line(input: Seq<u8>) -> Parse<(u64, u64)> {
    spec_values("scache ".spec_bytes(), input)
}

/// `hostname hash 131072(3145728)`
pub open spec fn spec_parse_hostnames_line(input: Seq<u8>) -> Parse<(u64, u64)> {
    spec_values("hostname hash ".spec_bytes(), input)
}

/// `Total: whowas 5756672 channel 1618438 conf 0`
///
/// Only the number after ` channel ` is kept.
pub open spec fn spec_parse_total_line(input: Seq<u8>) -> Parse<u64> {
    match spec_parse_line_3_values(
        "Total: whowas ".spec_bytes(),
        " channel ".spec_bytes(),
        " conf ".spec_bytes(),
        input,
    ) {
        None => None,
        Some((r, (_, total_channel_memory, _))) => Some((r, total_channel_memory)),
    }
}

/// `Local client Memory in use: 0(0)`
pub open spec fn spec_parse_local_client_line(input: Seq<u8>) -> Parse<(u64, u64)> {
    spec_values("Local client Memory in use: ".spec_bytes(), input)
}

/// `Remote client Memory in use: 0(0)`
pub open spec fn spec_parse_remote_client_line(input: Seq<u8>) -> Parse<(u64, u64)> {
    spec_values("Remote client Memory in use: ".spec_bytes(), input)
}

/// `TOTAL: 7377222`
pub open spec fn spec_parse_total_memory_line(input: Seq<u8>) -> Parse<u64> {
    match spec_tag("TOTAL: ".spec_bytes(), input) {
        None => None,
        Some(r) => spec_parse_number(r),
    }
}

/// The bytes that a successful parse left unread; none after a failure.
pub open spec fn rest_after<T>(p: Parse<T>) -> Seq<u8> {
    match p {
        Some((rest, _)) => rest,
        None => Seq::empty(),
    }
}

/// The value that a successful parse read.
pub open spec fn value_of<T>(p: Parse<T>) -> T {
    match p {
        Some((_, value)) => value,
        None => arbitrary(),
    }
}

/// The whole report: the seventeen lines in their order, each read from where
/// the one before it ended, a line feed between each two, and nothing after
/// the last.
#[verifier::opaque]
pub open spec fn spec_parse_stats_z(input: Seq<u8>) -> Option<StatsZ> {
    let users = ended(spec_parse_users_line(input));
    let user_channels = ended(spec_parse_user_channels_line(rest_after(users)));
    let attached_confs = ended(spec_parse_attached_confs(rest_after(user_channels)));
    let conflines = ended(spec_parse_conflines(rest_after(attached_confs)));
    let classes = ended(spec_parse_classes(rest_after(conflines)));
    let channels = ended(spec_parse_channels(rest_after(classes)));
    let bans = ended(spec_parse_bans(rest_after(channels)));
    let channel_members = ended(spec_parse_channel_members(rest_after(bans)));
    let whowas = ended(spec_parse_whowas(rest_after(channel_members)));
    let hash = ended(spec_parse_hash_line(rest_after(whowas)));
    let linebuf = ended(spec_parse_linebuf(rest_after(hash)));
    let scache = ended(spec_parse_scache_line(rest_after(linebuf)));
    let hostnames = ended(spec_parse_hostnames_line(rest_after(scache)));
    let total = ended(spec_parse_total_line(rest_after(hostnames)));
    let local_client = ended(spec_parse_local_client_line(rest_after(total)));
    let remote_client = ended(spec_parse_remote_client_line(rest_after(local_client)));
    let total_memory = spec_parse_total_memory_line(rest_after(remote_client));
    if users is Some
        && user_channels is Some
        && attached_confs is Some
        && conflines is Some
        && classes is Some
        && channels is Some
        && bans is Some
        && channel_members is Some
        && whowas is Some
        && hash is Some
        && linebuf is Some
        && scache is Some
        && hostnames is Some
        && total is Some
        && local_client is Some
        && remote_client is Some
        && total_memory is Some
        && rest_after(total_memory).len() == 0 {
        Some(
            StatsZ {
                users: value_of(users).0,
                users_memory: value_of(users).1,
                users_invited: value_of(users).2,
                users_invited_memory: value_of(users).3,
                user_channels: value_of(user_channels).0,
                user_channels_memory: value_of(user_channels).1,
                users_away: value_of(user_channels).2,
                users_away_memory: value_of(user_channels).3,
                local_client_conf_count: value_of(attached_confs).0,
                local_client_conf_memory: value_of(attached_confs).1,
                conf_count: value_of(conflines).0,
                conf_memory: value_of(conflines).1,
                classes_count: value_of(classes).0,
                classes_memory: value_of(classes).1,
                channels_count: value_of(channels).0,
                channels_memory: value_of(channels).1,
                channel_ban_count: value_of(bans).0,
                channel_ban_memory: value_of(bans).1,
                channel_exceptions_count: value_of(bans).2,
                channel_exceptions_memory: value_of(bans).3,
                channel_invex_count: value_of(bans).4,
                channel_invex_memory: value_of(bans).5,
                channel_quiets_count: value_of(bans).6,
                channel_quiets_memory: value_of(bans).7,
                channel_members: value_of(channel_members).0,
                channel_members_memory: value_of(channel_members).1,
                channel_invites_count: value_of(channel_members).2,
                channel_invites_memory: value_of(channel_members).3,
                whowas_count: value_of(whowas).0,
                whowas_memory: value_of(whowas).1,
                hash_client_count: value_of(hash).0,
                hash_client_memory: value_of(hash).1,
                hash_channel_count: value_of(hash).2,
                hash_channel_memory: value_of(hash).3,
                linebuf_count: value_of(linebuf).0,
                linebuf_memory: value_of(linebuf).1,
                servers_cached_number: value_of(scache).0,
                servers_cached_memory: value_of(scache).1,
                hostname_count: value_of(hostnames).0,
                hostname_memory: value_of(hostnames).1,
                total_channel_memory: value_of(total),
                local_client_count: value_of(local_client).0,
                local_client_memory: value_of(local_client).1,
                remote_client_count: value_of(remote_client).0,
                remote_client_memory: value_of(remote_client).1,
                total: value_of(total_memory),
            },
        )
    } else {
        None
    }
}

/// Reads `prefix N(M)`.
pub fn values<'a>(prefix: &'static str, input: &'a str) -> (r: Result<
    (&'a str, (u64, u64)),
    MalformedReport,
>)
    ensures
        parsed(r, spec_values(prefix.spec_bytes(), input.spec_bytes())),
{
    let r = tag(prefix, input)?;
    let (r, v) = parse_number(r)?;
    let r = tag("(", r)?;
    let (r, v2) = parse_number(r)?;
    let r = tag(")", r)?;
    Ok((r, (v, v2)))
}

/// Reads `sep1 N(M)sep2 N(M)`.
pub fn parse_line_4_values<'a>(
    sep1: &'static str,
    sep2: &'static str,
    input: &'a str,
) -> (r: Result<(&'a str, (u64, u64, u64, u64)), MalformedReport>)
    ensures
        parsed(
            r,
            spec_parse_line_4_values(sep1.spec_bytes(), sep2.spec_bytes(), input.spec_bytes()),
        ),
{
    let (r, (v1, v2)) = values(sep1, input)?;
    let (r, (v3, v4)) = values(sep2, r)?;
    Ok((r, (v1, v2, v3, v4)))
}

/// Reads `sep1 N sep2 N sep3 N`.
pub fn parse_line_3_values<'a>(
    sep1: &'static str,
    sep2: &'static str,
    sep3: &'static str,
    input: &'a str,
) -> (r: Result<(&'a str, (u64, u64, u64)), MalformedReport>)
    ensures
        parsed(
            r,
            spec_parse_line_3_values(
                sep1.spec_bytes(),
                sep2.spec_bytes(),
                sep3.spec_bytes(),
                input.spec_bytes(),
            ),
        ),
{
    let r = tag(sep1, input)?;
    let (r, v1) = parse_number(r)?;
    let r = tag(sep2, r)?;
    let (r, v2) = parse_number(r)?;
    let r = tag(sep3, r)?;
    let (r, v3) = parse_number(r)?;
    Ok((r, (v1, v2, v3)))
}

/// Reads a line feed.
pub fn newline(input: &str) -> (r: Result<&str, MalformedReport>)
    ensures
        match spec_newline(input.spec_bytes()) {
            Some(rest) => r matches Ok(s) && s.spec_bytes() == rest,
            None => r is Err,
        },
{
    tag("\n", input)
}

/// Reads the line `Users 10175(1221000) Invites 0(0)`.
pub fn parse_users_line(input: &str) -> (r: Result<(&str, (u64, u64, u64, u64)), MalformedReport>)
    ensures
        parsed(r, spec_parse_users_line(input.spec_bytes())),
{
    parse_line_4_values("Users ", " Invites ", input)
}

/// Reads the line `User channels 30651(735624) Aways 496(14282)`.
pub fn parse_user_channels_line(input: &str) -> (r: Result<
    (&str, (u64, u64, u64, u64)),
    MalformedReport,
>)
    ensures
        parsed(r, spec_parse_user_channels_line(input.spec_bytes())),
{
    parse_line_4_values("User channels ", " Aways ", input)
}

/// Reads the line `Attached confs 24(576)`.
pub fn parse_attached_confs(input: &str) -> (r: Result<(&str, (u64, u64)), MalformedReport>)
    ensures
        parsed(r, spec_parse_attached_confs(input.spec_bytes())),
{
    values("Attached confs ", input)
}

/// Reads the line `Conflines 0(0)`.
pub fn parse_conflines(input: &str) -> (r: Result<(&str, (u64, u64)), MalformedReport>)
    ensures
        parsed(r, spec_parse_conflines(input.spec_bytes())),
{
    values("Conflines ", input)
}

/// Reads the line `Classes 12(960)`.
pub fn parse_classes(input: &str) -> (r: Result<(&str, (u64, u64)), MalformedReport>)
    ensures
        parsed(r, spec_parse_classes(input.spec_bytes())),
{
    values("Classes ", input)
}

/// Reads the line `Channels 1988(816734)`.
pub fn parse_channels(input: &str) -> (r: Result<(&str, (u64, u64)), MalformedReport>)
    ensures
        parsed(r, spec_parse_channels(input.spec_bytes())),
{
    values("Channels ", input)
}

/// Reads the line `Bans 826(66080) Exceptions 31(2480) Invex 552(44160) Quiets 131(10480)`.
pub fn parse_bans(input: &str) -> (r: Result<
    (&str, (u64, u64, u64, u64, u64, u64, u64, u64)),
    MalformedReport,
>)
    ensures
        parsed(r, spec_parse_bans(input.spec_bytes())),
{
    let (
        r,
        (
            channel_ban_count,
            channel_ban_memory,
            channel_exceptions_count,
            channel_exceptions_memory,
        ),
    ) = parse_line_4_values("Bans ", " Exceptions ", input)?;
    let (
        r,
        (channel_invex_count, channel_invex_memory, channel_quiets_count, channel_quiets_memory),
    ) = parse_line_4_values(" Invex ", " Quiets ", r)?;
    Ok(
        (
            r,
            (
                channel_ban_count,
                channel_ban_memory,
                channel_exceptions_count,
                channel_exceptions_memory,
                channel_invex_count,
                channel_invex_memory,
                channel_quiets_count,
                channel_quiets_memory,
            ),
        ),
    )
}

/// Reads the line `Channel members 30651(735624) invite 0(0)`.
pub fn parse_channel_members(input: &str) -> (r: Result<
    (&str, (u64, u64, u64, u64)),
    MalformedReport,
>)
    ensures
        parsed(r, spec_parse_channel_members(input.spec_bytes())),
{
    parse_line_4_values("Channel members ", " invite ", input)
}

/// Reads the line `Whowas array 15000(5756672)`.
pub fn parse_whowas(input: &str) -> (r: Result<(&str, (u64, u64)), MalformedReport>)
    ensures
        parsed(r, spec_parse_whowas(input.spec_bytes())),
{
    values("Whowas array ", input)
}

/// Reads the line `Hash: client 131072(3145728) chan 65536(1572864)`.
pub fn parse_hash_line(input: &str) -> (r: Result<(&str, (u64, u64, u64, u64)), MalformedReport>)
    ensures
        parsed(r, spec_parse_hash_line(input.spec_bytes())),
{
    parse_line_4_values("Hash: client ", " chan ", input)
}

/// Reads the line `linebuf 0(0)`.
pub fn parse_linebuf(input: &str) -> (r: Result<(&str, (u64, u64)), MalformedReport>)
    ensures
        parsed(r, spec_parse_linebuf(input.spec_bytes())),
{
    values("linebuf ", input)
}

/// Reads the line `scache 8(1152)`.
pub fn parse_scache_line(input: &str) -> (r: Result<(&str, (u64, u64)), MalformedReport>)
    ensures
        parsed(r, spec_parse_scache_line(input.spec_bytes())),
{
    values("scache ", input)
}

/// Reads the line `hostname hash 131072(3145728)`.
pub fn parse_hostnames_line(input: &str) -> (r: Result<(&str, (u64, u64)), MalformedReport>)
    ensures
        parsed(r, spec_parse_hostnames_line(input.spec_bytes())),
{
    values("hostname hash ", input)
}

/// Reads the line `Total: whowas 5756672 channel 1618438 conf 0`.
pub fn parse_total_line(input: &str) -> (r: Result<(&str, u64), MalformedReport>)
    ensures
        parsed(r, spec_parse_total_line(input.spec_bytes())),
{
    let (r, (_, total_channel_memory, _)) = parse_line_3_values(
        "Total: whowas ",
        " channel ",
        " conf ",
        input,
    )?;
    Ok((r, total_channel_memory))
}

/// Reads the line `Local client Memory in use: 0(0)`.
pub fn parse_local_client_line(input: &str) -> (r: Result<(&str, (u64, u64)), MalformedReport>)
    ensures
        parsed(r, spec_parse_local_client_line(input.spec_bytes())),
{
    values("Local client Memory in use: ", input)
}

/// Reads the line `Remote client Memory in use: 0(0)`.
pub fn parse_remote_client_line(input: &str) -> (r: Result<(&str, (u64, u64)), MalformedReport>)
    ensures
        parsed(r, spec_parse_remote_client_line(input.spec_bytes())),
{
    values("Remote client Memory in use: ", input)
}

/// Reads the line `TOTAL: 7377222`.
pub fn parse_total_memory_line(input: &str) -> (r: Result<(&str, u64), MalformedReport>)
    ensures
        parsed(r, spec_parse_total_memory_line(input.spec_bytes())),
{
    let r = tag("TOTAL: ", input)?;
    parse_number(r)
}

/// Parses a whole report. The text is the report's lines in the order of
/// their arrival, joined by single line feeds. Any deviation from the grammar
/// — a wrong label, a missing or overlong number, text after the last line —
/// is an error, and then nothing of the text is kept.
pub fn parse_stats_z(input: &str) -> (r: Result<StatsZ, MalformedReport>)
    ensures
        r == match spec_parse_stats_z(input.spec_bytes()) {
            Some(report) => Ok::<StatsZ, MalformedReport>(report),
            None => Err(MalformedReport),
        },
{
    reveal(spec_parse_stats_z);
    let (r, (users, users_memory, users_invited, users_invited_memory)) = parse_users_line(input)?;
    let r = newline(r)?;
    let (
        r,
        (user_channels, user_channels_memory, users_away, users_away_memory),
    ) = parse_user_channels_line(r)?;
    let r = newline(r)?;
    let (r, (local_client_conf_count, local_client_conf_memory)) = parse_attached_confs(r)?;
    let r = newline(r)?;
    let (r, (conf_count, conf_memory)) = parse_conflines(r)?;
    let r = newline(r)?;
    let (r, (classes_count, classes_memory)) = parse_classes(r)?;
    let r = newline(r)?;
    let (r, (channels_count, channels_memory)) = parse_channels(r)?;
    let r = newline(r)?;
    let (
        r,
        (
            channel_ban_count,
            channel_ban_memory,
            channel_exceptions_count,
            channel_exceptions_memory,
            channel_invex_count,
            channel_invex_memory,
            channel_quiets_count,
            channel_quiets_memory,
        ),
    ) = parse_bans(r)?;
    let r = newline(r)?;
    let (
        r,
        (channel_members, channel_members_memory, channel_invites_count, channel_invites_memory),
    ) = parse_channel_members(r)?;
    let r = newline(r)?;
    let (r, (whowas_count, whowas_memory)) = parse_whowas(r)?;
    let r = newline(r)?;
    let (
        r,
        (hash_client_count, hash_client_memory, hash_channel_count, hash_channel_memory),
    ) = parse_hash_line(r)?;
    let r = newline(r)?;
    let (r, (linebuf_count, linebuf_memory)) = parse_linebuf(r)?;
    let r = newline(r)?;
    let (r, (servers_cached_number, servers_cached_memory)) = parse_scache_line(r)?;
    let r = newline(r)?;
    let (r, (hostname_count, hostname_memory)) = parse_hostnames_line(r)?;
    let r = newline(r)?;
    let (r, total_channel_memory) = parse_total_line(r)?;
    let r = newline(r)?;
    let (r, (local_client_count, local_client_memory)) = parse_local_client_line(r)?;
    let r = newline(r)?;
    let (r, (remote_client_count, remote_client_memory)) = parse_remote_client_line(r)?;
    let r = newline(r)?;
    let (r, total) = parse_total_memory_line(r)?;
    if r.as_bytes().len() != 0 {
        return Err(MalformedReport);
    }
    Ok(
        StatsZ {
            users,
            users_memory,
            users_invited,
            users_invited_memory,
            user_channels,
            user_channels_memory,
            users_away,
            users_away_memory,
            local_client_conf_count,
            local_client_conf_memory,
            conf_count,
            conf_memory,
            classes_count,
            classes_memory,
            channels_count,
            channels_memory,
            channel_ban_count,
            channel_ban_memory,
            channel_exceptions_count,
            channel_exceptions_memory,
            channel_invex_count,
            channel_invex_memory,
            channel_quiets_count,
            channel_quiets_memory,
            channel_members,
            channel_members_memory,
            channel_invites_count,
            channel_invites_memory,
            whowas_count,
            whowas_memory,
            hash_client_count,
            hash_client_memory,
            hash_channel_count,
            hash_channel_memory,
            linebuf_count,
            linebuf_memory,
            servers_cached_number,
            servers_cached_memory,
            hostname_count,
            hostname_memory,
            total_channel_memory,
            local_client_count,
            local_client_memory,
            remote_client_count,
            remote_client_memory,
            total,
        },
    )
}

} // verus!
