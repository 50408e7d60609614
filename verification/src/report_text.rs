//! The text of a report, and what the parser makes of it.
//!
//! `report_text` writes a report in the fixed form in which servers send it.
//! Four laws tie the parser to that form: the text of any report is read back
//! as that report; the text without its last line is rejected; and a text
//! that follows a report up to the place of a label, at the start of a line
//! or inside one, and does not go on with that label, is rejected.

use crate::parser::{
    decimal_value, digit_run, ended, is_digit, lemma_digit_run_is, rest_after,
    spec_newline, spec_parse_attached_confs, spec_parse_bans, spec_parse_channel_members,
    spec_parse_channels, spec_parse_classes, spec_parse_conflines, spec_parse_hash_line,
    spec_parse_hostnames_line, spec_parse_line_3_values, spec_parse_line_4_values,
    spec_parse_linebuf, spec_parse_local_client_line, spec_parse_number,
    spec_parse_remote_client_line, spec_parse_scache_line, spec_parse_stats_z,
    spec_parse_total_line, spec_parse_total_memory_line, spec_parse_user_channels_line,
    spec_parse_users_line, spec_parse_whowas, spec_tag, spec_values, value_of,
};
use crate::stats::StatsZ;
use vstd::prelude::*;
use vstd::string::*;
use vstd::utf8::*;

verus! {

/// The digits of `n` in base ten, without leading zeros.
pub open spec fn decimal_bytes(n: nat) -> Seq<u8>
    decreases n,
{
    if n < 10 {
        seq![(0x30 + n) as u8]
    } else {
        decimal_bytes(n / 10).push((0x30 + n % 10) as u8)
    }
}

/// A count and its bytes under a label: `label N(M)`.
pub open spec fn sized_text(label: Seq<u8>, count: u64, bytes: u64) -> Seq<u8> {
    label + decimal_bytes(count as nat) + "(".spec_bytes() + decimal_bytes(bytes as nat)
        + ")".spec_bytes()
}

/// A number under a label: `label N`.
pub open spec fn bare_text(label: Seq<u8>, n: u64) -> Seq<u8> {
    label + decimal_bytes(n as nat)
}

/// Line `k` of the text of a report, counted from 0.
pub open spec fn report_line(r: StatsZ, k: int) -> Seq<u8> {
    if k == 0 {
        sized_text("Users ".spec_bytes(), r.users, r.users_memory)
            + sized_text(" Invites ".spec_bytes(), r.users_invited, r.users_invited_memory)
    } else if k == 1 {
        sized_text("User channels ".spec_bytes(), r.user_channels, r.user_channels_memory)
            + sized_text(" Aways ".spec_bytes(), r.users_away, r.users_away_memory)
    } else if k == 2 {
        sized_text(
            "Attached confs ".spec_bytes(),
            r.local_client_conf_count,
            r.local_client_conf_memory,
        )
    } else if k == 3 {
        sized_text("Conflines ".spec_bytes(), r.conf_count, r.conf_memory)
    } else if k == 4 {
        sized_text("Classes ".spec_bytes(), r.classes_count, r.classes_memory)
    } else if k == 5 {
        sized_text("Channels ".spec_bytes(), r.channels_count, r.channels_memory)
    } else if k == 6 {
        sized_text("Bans ".spec_bytes(), r.channel_ban_count, r.channel_ban_memory)
            + sized_text(
                " Exceptions ".spec_bytes(),
                r.channel_exceptions_count,
                r.channel_exceptions_memory,
            )
            + sized_text(" Invex ".spec_bytes(), r.channel_invex_count, r.channel_invex_memory)
            + sized_text(" Quiets ".spec_bytes(), r.channel_quiets_count, r.channel_quiets_memory)
    } else if k == 7 {
        sized_text("Channel members ".spec_bytes(), r.channel_members, r.channel_members_memory)
            + sized_text(" invite ".spec_bytes(), r.channel_invites_count, r.channel_invites_memory)
    } else if k == 8 {
        sized_text("Whowas array ".spec_bytes(), r.whowas_count, r.whowas_memory)
    } else if k == 9 {
        sized_text("Hash: client ".spec_bytes(), r.hash_client_count, r.hash_client_memory)
            + sized_text(" chan ".spec_bytes(), r.hash_channel_count, r.hash_channel_memory)
    } else if k == 10 {
        sized_text("linebuf ".spec_bytes(), r.linebuf_count, r.linebuf_memory)
    } else if k == 11 {
        sized_text("scache ".spec_bytes(), r.servers_cached_number, r.servers_cached_memory)
    } else if k == 12 {
        sized_text("hostname hash ".spec_bytes(), r.hostname_count, r.hostname_memory)
    } else if k == 13 {
        bare_text("Total: whowas ".spec_bytes(), r.whowas_memory) + bare_text(
            " channel ".spec_bytes(),
            r.total_channel_memory,
        ) + bare_text(" conf ".spec_bytes(), r.conf_memory)
    } else if k == 14 {
        sized_text(
            "Local client Memory in use: ".spec_bytes(),
            r.local_client_count,
            r.local_client_memory,
        )
    } else if k == 15 {
        sized_text(
            "Remote client Memory in use: ".spec_bytes(),
            r.remote_client_count,
            r.remote_client_memory,
        )
    } else {
        bare_text("TOTAL: ".spec_bytes(), r.total)
    }
}
/// The lines of the report from line `i` up to line `k`, line `k` left out,
/// each closed by a line feed, and `rest` behind them.
pub open spec fn lines_from(r: StatsZ, i: int, k: int, rest: Seq<u8>) -> Seq<u8>
    decreases k - i,
{
    if i >= k {
        rest
    } else {
        report_line(r, i) + ("\n".spec_bytes() + lines_from(r, i + 1, k, rest))
    }
}

/// The text of a report: its seventeen lines with a line feed between each
/// two, every number in base ten without leading zeros.
pub open spec fn report_text(r: StatsZ) -> Seq<u8> {
    lines_from(r, 0, 16, report_line(r, 16))
}

/// The text of a report without its last line.
pub open spec fn report_text_cut(r: StatsZ) -> Seq<u8> {
    lines_from(r, 0, 15, report_line(r, 15))
}

/// The label that opens line `k`.
pub open spec fn leading_label(k: int) -> Seq<u8> {
    if k == 0 {
        "Users ".spec_bytes()
    } else if k == 1 {
        "User channels ".spec_bytes()
    } else if k == 2 {
        "Attached confs ".spec_bytes()
    } else if k == 3 {
        "Conflines ".spec_bytes()
    } else if k == 4 {
        "Classes ".spec_bytes()
    } else if k == 5 {
        "Channels ".spec_bytes()
    } else if k == 6 {
        "Bans ".spec_bytes()
    } else if k == 7 {
        "Channel members ".spec_bytes()
    } else if k == 8 {
        "Whowas array ".spec_bytes()
    } else if k == 9 {
        "Hash: client ".spec_bytes()
    } else if k == 10 {
        "linebuf ".spec_bytes()
    } else if k == 11 {
        "scache ".spec_bytes()
    } else if k == 12 {
        "hostname hash ".spec_bytes()
    } else if k == 13 {
        "Total: whowas ".spec_bytes()
    } else if k == 14 {
        "Local client Memory in use: ".spec_bytes()
    } else if k == 15 {
        "Remote client Memory in use: ".spec_bytes()
    } else {
        "TOTAL: ".spec_bytes()
    }
}

/// The line on which the inner label `j` stands. The inner labels are the
/// nine that stand behind a number, counted from 0 in the order of the text.
pub open spec fn inner_line(j: int) -> int {
    if j == 0 {
        0
    } else if j == 1 {
        1
    } else if j == 2 {
        6
    } else if j == 3 {
        6
    } else if j == 4 {
        6
    } else if j == 5 {
        7
    } else if j == 6 {
        9
    } else if j == 7 {
        13
    } else {
        13
    }
}

/// The inner label `j`.
pub open spec fn inner_label(j: int) -> Seq<u8> {
    if j == 0 {
        " Invites ".spec_bytes()
    } else if j == 1 {
        " Aways ".spec_bytes()
    } else if j == 2 {
        " Exceptions ".spec_bytes()
    } else if j == 3 {
        " Invex ".spec_bytes()
    } else if j == 4 {
        " Quiets ".spec_bytes()
    } else if j == 5 {
        " invite ".spec_bytes()
    } else if j == 6 {
        " chan ".spec_bytes()
    } else if j == 7 {
        " channel ".spec_bytes()
    } else {
        " conf ".spec_bytes()
    }
}

/// What stands on the line of the inner label `j` before that label.
pub open spec fn before_inner(r: StatsZ, j: int) -> Seq<u8> {
    if j == 0 {
        sized_text("Users ".spec_bytes(), r.users, r.users_memory)
    } else if j == 1 {
        sized_text("User channels ".spec_bytes(), r.user_channels, r.user_channels_memory)
    } else if j == 2 {
        sized_text("Bans ".spec_bytes(), r.channel_ban_count, r.channel_ban_memory)
    } else if j == 3 {
        sized_text("Bans ".spec_bytes(), r.channel_ban_count, r.channel_ban_memory) + sized_text(
            " Exceptions ".spec_bytes(),
            r.channel_exceptions_count,
            r.channel_exceptions_memory,
        )
    } else if j == 4 {
        sized_text("Bans ".spec_bytes(), r.channel_ban_count, r.channel_ban_memory) + sized_text(
            " Exceptions ".spec_bytes(),
            r.channel_exceptions_count,
            r.channel_exceptions_memory,
        ) + sized_text(" Invex ".spec_bytes(), r.channel_invex_count, r.channel_invex_memory)
    } else if j == 5 {
        sized_text("Channel members ".spec_bytes(), r.channel_members, r.channel_members_memory)
    } else if j == 6 {
        sized_text("Hash: client ".spec_bytes(), r.hash_client_count, r.hash_client_memory)
    } else if j == 7 {
        bare_text("Total: whowas ".spec_bytes(), r.whowas_memory)
    } else {
        bare_text("Total: whowas ".spec_bytes(), r.whowas_memory)
            + bare_text(" channel ".spec_bytes(), r.total_channel_memory)
    }
}

/// `s` is empty or starts with something that is no digit: a number before
/// it ends where it starts.
pub open spec fn ends_number(s: Seq<u8>) -> bool {
    s.len() == 0 || !is_digit(s[0])
}

/// The bytes of the three literals that stand between numbers.
pub proof fn lemma_marks()
    ensures
        "(".spec_bytes() == seq![0x28u8],
        ")".spec_bytes() == seq![0x29u8],
        "\n".spec_bytes() == seq![0x0au8],
        " channel ".spec_bytes().len() > 0 && " channel ".spec_bytes()[0] == 0x20,
        " conf ".spec_bytes().len() > 0 && " conf ".spec_bytes()[0] == 0x20,
{
    reveal_strlit("(");
    reveal_strlit(")");
    reveal_strlit("\n");
    reveal_strlit(" channel ");
    reveal_strlit(" conf ");
    is_ascii_chars_encode_utf8("("@);
    is_ascii_chars_encode_utf8(")"@);
    is_ascii_chars_encode_utf8("\n"@);
    is_ascii_chars_encode_utf8(" channel "@);
    is_ascii_chars_encode_utf8(" conf "@);
    assert("(".spec_bytes() =~= seq![0x28u8]);
    assert(")".spec_bytes() =~= seq![0x29u8]);
    assert("\n".spec_bytes() =~= seq![0x0au8]);
}

/// The digits of a number are digits, at least one, and write the number.
pub proof fn lemma_decimal_bytes(n: nat)
    ensures
        decimal_bytes(n).len() >= 1,
        forall|j: int| 0 <= j < decimal_bytes(n).len() ==> is_digit(#[trigger] decimal_bytes(n)[j]),
        decimal_value(decimal_bytes(n)) == n,
    decreases n,
{
    if n < 10 {
        let d = decimal_bytes(n);
        assert(d.drop_last() =~= Seq::<u8>::empty());
        assert(decimal_value(d.drop_last()) == 0);
    } else {
        lemma_decimal_bytes(n / 10);
        let d = decimal_bytes(n);
        assert(d.drop_last() =~= decimal_bytes(n / 10));
    }
}

/// A literal is read off the front of any text that starts with it.
pub proof fn lemma_tag_reads(label: Seq<u8>, rest: Seq<u8>)
    ensures
        spec_tag(label, label + rest) == Some(rest),
{
    reveal(spec_tag);
    let s = label + rest;
    assert(s.subrange(0, label.len() as int) =~= label);
    assert(s.skip(label.len() as int) =~= rest);
}

/// A number is read back from its digits where what follows is no digit.
pub proof fn lemma_number_reads(n: u64, rest: Seq<u8>)
    requires
        ends_number(rest),
    ensures
        spec_parse_number(decimal_bytes(n as nat) + rest) == Some((rest, n)),
{
    reveal(spec_parse_number);
    let d = decimal_bytes(n as nat);
    let s = d + rest;
    lemma_decimal_bytes(n as nat);
    assert forall|j: int| 0 <= j < d.len() implies is_digit(#[trigger] s[j]) by {
        assert(s[j] == d[j]);
    }
    if rest.len() > 0 {
        assert(s[d.len() as int] == rest[0]);
    }
    lemma_digit_run_is(s, d.len() as int);
    assert(s.take(d.len() as int) =~= d);
    assert(s.skip(d.len() as int) =~= rest);
}

/// A count and its bytes are read back from `label N(M)`, whatever follows.
pub proof fn lemma_sized_reads(label: Seq<u8>, count: u64, bytes: u64, rest: Seq<u8>)
    ensures
        spec_values(label, sized_text(label, count, bytes) + rest) == Some((rest, (count, bytes))),
{
    lemma_marks();
    let open = "(".spec_bytes();
    let close = ")".spec_bytes();
    let r4 = close + rest;
    let r3 = decimal_bytes(bytes as nat) + r4;
    let r2 = open + r3;
    let r1 = decimal_bytes(count as nat) + r2;
    assert(sized_text(label, count, bytes) + rest =~= label + r1);
    lemma_tag_reads(label, r1);
    assert(r2[0] == 0x28);
    lemma_number_reads(count, r2);
    lemma_tag_reads(open, r3);
    assert(r4[0] == 0x29);
    lemma_number_reads(bytes, r4);
    lemma_tag_reads(close, rest);
}

/// Two labelled pairs are read back from their text, whatever follows.
pub proof fn lemma_line_4_reads(
    sep1: Seq<u8>,
    sep2: Seq<u8>,
    v: (u64, u64, u64, u64),
    rest: Seq<u8>,
)
    ensures
        spec_parse_line_4_values(
            sep1,
            sep2,
            sized_text(sep1, v.0, v.1) + sized_text(sep2, v.2, v.3) + rest,
        ) == Some((rest, v)),
{
    let r1 = sized_text(sep2, v.2, v.3) + rest;
    assert(sized_text(sep1, v.0, v.1) + sized_text(sep2, v.2, v.3) + rest =~= sized_text(
        sep1,
        v.0,
        v.1,
    ) + r1);
    lemma_sized_reads(sep1, v.0, v.1, r1);
    lemma_sized_reads(sep2, v.2, v.3, rest);
}

/// Three labelled numbers are read back from their text where the second and
/// the third label, and what follows, do not start with a digit.
pub proof fn lemma_line_3_reads(
    sep1: Seq<u8>,
    sep2: Seq<u8>,
    sep3: Seq<u8>,
    v: (u64, u64, u64),
    rest: Seq<u8>,
)
    requires
        sep2.len() > 0 && !is_digit(sep2[0]),
        sep3.len() > 0 && !is_digit(sep3[0]),
        ends_number(rest),
    ensures
        spec_parse_line_3_values(
            sep1,
            sep2,
            sep3,
            bare_text(sep1, v.0) + bare_text(sep2, v.1) + bare_text(sep3, v.2) + rest,
        ) == Some((rest, v)),
{
    let r5 = decimal_bytes(v.2 as nat) + rest;
    let r4 = sep3 + r5;
    let r3 = decimal_bytes(v.1 as nat) + r4;
    let r2 = sep2 + r3;
    let r1 = decimal_bytes(v.0 as nat) + r2;
    assert(bare_text(sep1, v.0) + bare_text(sep2, v.1) + bare_text(sep3, v.2) + rest =~= sep1
        + r1);
    lemma_tag_reads(sep1, r1);
    assert(r2[0] == sep2[0]);
    lemma_number_reads(v.0, r2);
    lemma_tag_reads(sep2, r3);
    assert(r4[0] == sep3[0]);
    lemma_number_reads(v.1, r4);
    lemma_tag_reads(sep3, r5);
    lemma_number_reads(v.2, rest);
}

/// Each of the first sixteen lines of the text of a report is read back by
/// the parser of that line, whatever follows the line; for the line of the
/// totals, what follows must not start with a digit.
pub proof fn lemma_line_reads(r: StatsZ, k: int, rest: Seq<u8>)
    requires
        0 <= k < 16,
        k == 13 ==> ends_number(rest),
    ensures
        k == 0 ==> spec_parse_users_line(report_line(r, 0) + rest) == Some(
            (
                rest,
                (
                    r.users,
                    r.users_memory,
                    r.users_invited,
                    r.users_invited_memory,
                ),
            ),
        ),
        k == 1 ==> spec_parse_user_channels_line(report_line(r, 1) + rest) == Some(
            (
                rest,
                (
                    r.user_channels,
                    r.user_channels_memory,
                    r.users_away,
                    r.users_away_memory,
                ),
            ),
        ),
        k == 2 ==> spec_parse_attached_confs(report_line(r, 2) + rest) == Some(
            (
                rest,
                (
                    r.local_client_conf_count,
                    r.local_client_conf_memory,
                ),
            ),
        ),
        k == 3 ==> spec_parse_conflines(report_line(r, 3) + rest) == Some(
            (
                rest,
                (
                    r.conf_count,
                    r.conf_memory,
                ),
            ),
        ),
        k == 4 ==> spec_parse_classes(report_line(r, 4) + rest) == Some(
            (
                rest,
                (
                    r.classes_count,
                    r.classes_memory,
                ),
            ),
        ),
        k == 5 ==> spec_parse_channels(report_line(r, 5) + rest) == Some(
            (
                rest,
                (
                    r.channels_count,
                    r.channels_memory,
                ),
            ),
        ),
        k == 6 ==> spec_parse_bans(report_line(r, 6) + rest) == Some(
            (
                rest,
                (
                    r.channel_ban_count,
                    r.channel_ban_memory,
                    r.channel_exceptions_count,
                    r.channel_exceptions_memory,
                    r.channel_invex_count,
                    r.channel_invex_memory,
                    r.channel_quiets_count,
                    r.channel_quiets_memory,
                ),
            ),
        ),
        k == 7 ==> spec_parse_channel_members(report_line(r, 7) + rest) == Some(
            (
                rest,
                (
                    r.channel_members,
                    r.channel_members_memory,
                    r.channel_invites_count,
                    r.channel_invites_memory,
                ),
            ),
        ),
        k == 8 ==> spec_parse_whowas(report_line(r, 8) + rest) == Some(
            (
                rest,
                (
                    r.whowas_count,
                    r.whowas_memory,
                ),
            ),
        ),
        k == 9 ==> spec_parse_hash_line(report_line(r, 9) + rest) == Some(
            (
                rest,
                (
                    r.hash_client_count,
                    r.hash_client_memory,
                    r.hash_channel_count,
                    r.hash_channel_memory,
                ),
            ),
        ),
        k == 10 ==> spec_parse_linebuf(report_line(r, 10) + rest) == Some(
            (
                rest,
                (
                    r.linebuf_count,
                    r.linebuf_memory,
                ),
            ),
        ),
        k == 11 ==> spec_parse_scache_line(report_line(r, 11) + rest) == Some(
            (
                rest,
                (
                    r.servers_cached_number,
                    r.servers_cached_memory,
                ),
            ),
        ),
        k == 12 ==> spec_parse_hostnames_line(report_line(r, 12) + rest) == Some(
            (
                rest,
                (
                    r.hostname_count,
                    r.hostname_memory,
                ),
            ),
        ),
        k == 13 ==> spec_parse_total_line(report_line(r, 13) + rest) == Some(
            (
                rest,
                r.total_channel_memory,
            ),
        ),
        k == 14 ==> spec_parse_local_client_line(report_line(r, 14) + rest) == Some(
            (
                rest,
                (
                    r.local_client_count,
                    r.local_client_memory,
                ),
            ),
        ),
        k == 15 ==> spec_parse_remote_client_line(report_line(r, 15) + rest) == Some(
            (
                rest,
                (
                    r.remote_client_count,
                    r.remote_client_memory,
                ),
            ),
        ),
{
    lemma_marks();
    if k == 0 {
        lemma_line_4_reads(
            "Users ".spec_bytes(),
            " Invites ".spec_bytes(),
            (r.users, r.users_memory, r.users_invited, r.users_invited_memory),
            rest,
        );
    } else if k == 1 {
        lemma_line_4_reads(
            "User channels ".spec_bytes(),
            " Aways ".spec_bytes(),
            (r.user_channels, r.user_channels_memory, r.users_away, r.users_away_memory),
            rest,
        );
    } else if k == 2 {
        lemma_sized_reads(
            "Attached confs ".spec_bytes(),
            r.local_client_conf_count,
            r.local_client_conf_memory,
            rest,
        );
    } else if k == 3 {
        lemma_sized_reads("Conflines ".spec_bytes(), r.conf_count, r.conf_memory, rest);
    } else if k == 4 {
        lemma_sized_reads("Classes ".spec_bytes(), r.classes_count, r.classes_memory, rest);
    } else if k == 5 {
        lemma_sized_reads("Channels ".spec_bytes(), r.channels_count, r.channels_memory, rest);
    } else if k == 6 {
        let second = sized_text(
            " Invex ".spec_bytes(),
            r.channel_invex_count,
            r.channel_invex_memory,
        ) + sized_text(
            " Quiets ".spec_bytes(),
            r.channel_quiets_count,
            r.channel_quiets_memory,
        ) + rest;
        let first = sized_text(
            "Bans ".spec_bytes(),
            r.channel_ban_count,
            r.channel_ban_memory,
        ) + sized_text(
            " Exceptions ".spec_bytes(),
            r.channel_exceptions_count,
            r.channel_exceptions_memory,
        );
        assert(report_line(r, 6) + rest =~= first + second);
        lemma_line_4_reads(
            "Bans ".spec_bytes(),
            " Exceptions ".spec_bytes(),
            (
                r.channel_ban_count,
                r.channel_ban_memory,
                r.channel_exceptions_count,
                r.channel_exceptions_memory,
            ),
            second,
        );
        lemma_line_4_reads(
            " Invex ".spec_bytes(),
            " Quiets ".spec_bytes(),
            (
                r.channel_invex_count,
                r.channel_invex_memory,
                r.channel_quiets_count,
                r.channel_quiets_memory,
            ),
            rest,
        );
    } else if k == 7 {
        lemma_line_4_reads(
            "Channel members ".spec_bytes(),
            " invite ".spec_bytes(),
            (
                r.channel_members,
                r.channel_members_memory,
                r.channel_invites_count,
                r.channel_invites_memory,
            ),
            rest,
        );
    } else if k == 8 {
        lemma_sized_reads("Whowas array ".spec_bytes(), r.whowas_count, r.whowas_memory, rest);
    } else if k == 9 {
        lemma_line_4_reads(
            "Hash: client ".spec_bytes(),
            " chan ".spec_bytes(),
            (
                r.hash_client_count,
                r.hash_client_memory,
                r.hash_channel_count,
                r.hash_channel_memory,
            ),
            rest,
        );
    } else if k == 10 {
        lemma_sized_reads("linebuf ".spec_bytes(), r.linebuf_count, r.linebuf_memory, rest);
    } else if k == 11 {
        lemma_sized_reads(
            "scache ".spec_bytes(),
            r.servers_cached_number,
            r.servers_cached_memory,
            rest,
        );
    } else if k == 12 {
        lemma_sized_reads("hostname hash ".spec_bytes(), r.hostname_count, r.hostname_memory, rest);
    } else if k == 13 {
        lemma_line_3_reads(
            "Total: whowas ".spec_bytes(),
            " channel ".spec_bytes(),
            " conf ".spec_bytes(),
            (r.whowas_memory, r.total_channel_memory, r.conf_memory),
            rest,
        );
    } else if k == 14 {
        lemma_sized_reads(
            "Local client Memory in use: ".spec_bytes(),
            r.local_client_count,
            r.local_client_memory,
            rest,
        );
    } else if k == 15 {
        lemma_sized_reads(
            "Remote client Memory in use: ".spec_bytes(),
            r.remote_client_count,
            r.remote_client_memory,
            rest,
        );
    }
}

/// The first `k` lines are read one after the other: the parser of each
/// line, applied where the line before it ended, reads the line's counters
/// and the line feed behind them. After line `k - 1`, `rest` is left.
pub proof fn lemma_lines_read(r: StatsZ, k: int, rest: Seq<u8>)
    requires
        0 <= k <= 16,
    ensures
        ({
            let users = ended(spec_parse_users_line(lines_from(r, 0, k, rest)));
            let user_channels = ended(spec_parse_user_channels_line(rest_after(users)));
            let attached_confs = ended(spec_parse_attached_confs(rest_after(user_channels)));
            let conflines = ended(spec_parse_conflines(rest_after(attached_confs)));
            let classes = ended(spec_parse_classes(rest_after(conflines)));
            let channels = ended(spec_parse_channels(rest_after(classes)));
            let bans = ended(spec_parse_bans(rest_after(channels)));
            let channel_members = ended(spec_parse_channel_members(rest_after(bans)));
            let whowas = ended(spec_parse_whowas(rest_after(channel_members)));
            let hash = ended(spec_parse_hash_line(rest_after(whowas)));
            let linebuf = ended(spec_parse_linebuf(rest_after(hash)));
            let scache = ended(spec_parse_scache_line(rest_after(linebuf)));
            let hostnames = ended(spec_parse_hostnames_line(rest_after(scache)));
            let total = ended(spec_parse_total_line(rest_after(hostnames)));
            let local_client = ended(spec_parse_local_client_line(rest_after(total)));
            let remote_client = ended(spec_parse_remote_client_line(rest_after(local_client)));
            &&& (k > 0 ==> users == Some(
                    (
                        lines_from(r, 1, k, rest),
                        (
                            r.users,
                            r.users_memory,
                            r.users_invited,
                            r.users_invited_memory,
                        ),
                    ),
                ))
            &&& (k > 1 ==> user_channels == Some(
                    (
                        lines_from(r, 2, k, rest),
                        (
                            r.user_channels,
                            r.user_channels_memory,
                            r.users_away,
                            r.users_away_memory,
                        ),
                    ),
                ))
            &&& (k > 2 ==> attached_confs == Some(
                    (
                        lines_from(r, 3, k, rest),
                        (
                            r.local_client_conf_count,
                            r.local_client_conf_memory,
                        ),
                    ),
                ))
            &&& (k > 3 ==> conflines == Some(
                    (
                        lines_from(r, 4, k, rest),
                        (
                            r.conf_count,
                            r.conf_memory,
                        ),
                    ),
                ))
            &&& (k > 4 ==> classes == Some(
                    (
                        lines_from(r, 5, k, rest),
                        (
                            r.classes_count,
                            r.classes_memory,
                        ),
                    ),
                ))
            &&& (k > 5 ==> channels == Some(
                    (
                        lines_from(r, 6, k, rest),
                        (
                            r.channels_count,
                            r.channels_memory,
                        ),
                    ),
                ))
            &&& (k > 6 ==> bans == Some(
                    (
                        lines_from(r, 7, k, rest),
                        (
                            r.channel_ban_count,
                            r.channel_ban_memory,
                            r.channel_exceptions_count,
                            r.channel_exceptions_memory,
                            r.channel_invex_count,
                            r.channel_invex_memory,
                            r.channel_quiets_count,
                            r.channel_quiets_memory,
                        ),
                    ),
                ))
            &&& (k > 7 ==> channel_members == Some(
                    (
                        lines_from(r, 8, k, rest),
                        (
                            r.channel_members,
                            r.channel_members_memory,
                            r.channel_invites_count,
                            r.channel_invites_memory,
                        ),
                    ),
                ))
            &&& (k > 8 ==> whowas == Some(
                    (
                        lines_from(r, 9, k, rest),
                        (
                            r.whowas_count,
                            r.whowas_memory,
                        ),
                    ),
                ))
            &&& (k > 9 ==> hash == Some(
                    (
                        lines_from(r, 10, k, rest),
                        (
                            r.hash_client_count,
                            r.hash_client_memory,
                            r.hash_channel_count,
                            r.hash_channel_memory,
                        ),
                    ),
                ))
            &&& (k > 10 ==> linebuf == Some(
                    (
                        lines_from(r, 11, k, rest),
                        (
                            r.linebuf_count,
                            r.linebuf_memory,
                        ),
                    ),
                ))
            &&& (k > 11 ==> scache == Some(
                    (
                        lines_from(r, 12, k, rest),
                        (
                            r.servers_cached_number,
                            r.servers_cached_memory,
                        ),
                    ),
                ))
            &&& (k > 12 ==> hostnames == Some(
                    (
                        lines_from(r, 13, k, rest),
                        (
                            r.hostname_count,
                            r.hostname_memory,
                        ),
                    ),
                ))
            &&& (k > 13 ==> total == Some((lines_from(r, 14, k, rest), r.total_channel_memory)))
            &&& (k > 14 ==> local_client == Some(
                    (
                        lines_from(r, 15, k, rest),
                        (
                            r.local_client_count,
                            r.local_client_memory,
                        ),
                    ),
                ))
            &&& (k > 15 ==> remote_client == Some(
                    (
                        lines_from(r, 16, k, rest),
                        (
                            r.remote_client_count,
                            r.remote_client_memory,
                        ),
                    ),
                ))
        }),
{
    let nl = "\n".spec_bytes();
    let users = ended(spec_parse_users_line(lines_from(r, 0, k, rest)));
    assert(k > 0 ==> users == Some(
        (
            lines_from(r, 1, k, rest),
            (
                r.users,
                r.users_memory,
                r.users_invited,
                r.users_invited_memory,
            ),
        ),
    )) by {
        if k > 0 {
            lemma_marks();
            reveal_with_fuel(lines_from, 2);
            lemma_line_reads(r, 0, nl + lines_from(r, 1, k, rest));
            lemma_tag_reads(nl, lines_from(r, 1, k, rest));
        }
    }
    let user_channels = ended(spec_parse_user_channels_line(rest_after(users)));
    assert(k > 1 ==> user_channels == Some(
        (
            lines_from(r, 2, k, rest),
            (
                r.user_channels,
                r.user_channels_memory,
                r.users_away,
                r.users_away_memory,
            ),
        ),
    )) by {
        if k > 1 {
            lemma_marks();
            reveal_with_fuel(lines_from, 2);
            lemma_line_reads(r, 1, nl + lines_from(r, 2, k, rest));
            lemma_tag_reads(nl, lines_from(r, 2, k, rest));
        }
    }
    let attached_confs = ended(spec_parse_attached_confs(rest_after(user_channels)));
    assert(k > 2 ==> attached_confs == Some(
        (
            lines_from(r, 3, k, rest),
            (
                r.local_client_conf_count,
                r.local_client_conf_memory,
            ),
        ),
    )) by {
        if k > 2 {
            lemma_marks();
            reveal_with_fuel(lines_from, 2);
            lemma_line_reads(r, 2, nl + lines_from(r, 3, k, rest));
            lemma_tag_reads(nl, lines_from(r, 3, k, rest));
        }
    }
    let conflines = ended(spec_parse_conflines(rest_after(attached_confs)));
    assert(k > 3 ==> conflines == Some(
        (
            lines_from(r, 4, k, rest),
            (
                r.conf_count,
                r.conf_memory,
            ),
        ),
    )) by {
        if k > 3 {
            lemma_marks();
            reveal_with_fuel(lines_from, 2);
            lemma_line_reads(r, 3, nl + lines_from(r, 4, k, rest));
            lemma_tag_reads(nl, lines_from(r, 4, k, rest));
        }
    }
    let classes = ended(spec_parse_classes(rest_after(conflines)));
    assert(k > 4 ==> classes == Some(
        (
            lines_from(r, 5, k, rest),
            (
                r.classes_count,
                r.classes_memory,
            ),
        ),
    )) by {
        if k > 4 {
            lemma_marks();
            reveal_with_fuel(lines_from, 2);
            lemma_line_reads(r, 4, nl + lines_from(r, 5, k, rest));
            lemma_tag_reads(nl, lines_from(r, 5, k, rest));
        }
    }
    let channels = ended(spec_parse_channels(rest_after(classes)));
    assert(k > 5 ==> channels == Some(
        (
            lines_from(r, 6, k, rest),
            (
                r.channels_count,
                r.channels_memory,
            ),
        ),
    )) by {
        if k > 5 {
            lemma_marks();
            reveal_with_fuel(lines_from, 2);
            lemma_line_reads(r, 5, nl + lines_from(r, 6, k, rest));
            lemma_tag_reads(nl, lines_from(r, 6, k, rest));
        }
    }
    let bans = ended(spec_parse_bans(rest_after(channels)));
    assert(k > 6 ==> bans == Some(
        (
            lines_from(r, 7, k, rest),
            (
                r.channel_ban_count,
                r.channel_ban_memory,
                r.channel_exceptions_count,
                r.channel_exceptions_memory,
                r.channel_invex_count,
                r.channel_invex_memory,
                r.channel_quiets_count,
                r.channel_quiets_memory,
            ),
        ),
    )) by {
        if k > 6 {
            lemma_marks();
            reveal_with_fuel(lines_from, 2);
            lemma_line_reads(r, 6, nl + lines_from(r, 7, k, rest));
            lemma_tag_reads(nl, lines_from(r, 7, k, rest));
        }
    }
    let channel_members = ended(spec_parse_channel_members(rest_after(bans)));
    assert(k > 7 ==> channel_members == Some(
        (
            lines_from(r, 8, k, rest),
            (
                r.channel_members,
                r.channel_members_memory,
                r.channel_invites_count,
                r.channel_invites_memory,
            ),
        ),
    )) by {
        if k > 7 {
            lemma_marks();
            reveal_with_fuel(lines_from, 2);
            lemma_line_reads(r, 7, nl + lines_from(r, 8, k, rest));
            lemma_tag_reads(nl, lines_from(r, 8, k, rest));
        }
    }
    let whowas = ended(spec_parse_whowas(rest_after(channel_members)));
    assert(k > 8 ==> whowas == Some(
        (
            lines_from(r, 9, k, rest),
            (
                r.whowas_count,
                r.whowas_memory,
            ),
        ),
    )) by {
        if k > 8 {
            lemma_marks();
            reveal_with_fuel(lines_from, 2);
            lemma_line_reads(r, 8, nl + lines_from(r, 9, k, rest));
            lemma_tag_reads(nl, lines_from(r, 9, k, rest));
        }
    }
    let hash = ended(spec_parse_hash_line(rest_after(whowas)));
    assert(k > 9 ==> hash == Some(
        (
            lines_from(r, 10, k, rest),
            (
                r.hash_client_count,
                r.hash_client_memory,
                r.hash_channel_count,
                r.hash_channel_memory,
            ),
        ),
    )) by {
        if k > 9 {
            lemma_marks();
            reveal_with_fuel(lines_from, 2);
            lemma_line_reads(r, 9, nl + lines_from(r, 10, k, rest));
            lemma_tag_reads(nl, lines_from(r, 10, k, rest));
        }
    }
    let linebuf = ended(spec_parse_linebuf(rest_after(hash)));
    assert(k > 10 ==> linebuf == Some(
        (
            lines_from(r, 11, k, rest),
            (
                r.linebuf_count,
                r.linebuf_memory,
            ),
        ),
    )) by {
        if k > 10 {
            lemma_marks();
            reveal_with_fuel(lines_from, 2);
            lemma_line_reads(r, 10, nl + lines_from(r, 11, k, rest));
            lemma_tag_reads(nl, lines_from(r, 11, k, rest));
        }
    }
    let scache = ended(spec_parse_scache_line(rest_after(linebuf)));
    assert(k > 11 ==> scache == Some(
        (
            lines_from(r, 12, k, rest),
            (
                r.servers_cached_number,
                r.servers_cached_memory,
            ),
        ),
    )) by {
        if k > 11 {
            lemma_marks();
            reveal_with_fuel(lines_from, 2);
            lemma_line_reads(r, 11, nl + lines_from(r, 12, k, rest));
            lemma_tag_reads(nl, lines_from(r, 12, k, rest));
        }
    }
    let hostnames = ended(spec_parse_hostnames_line(rest_after(scache)));
    assert(k > 12 ==> hostnames == Some(
        (
            lines_from(r, 13, k, rest),
            (
                r.hostname_count,
                r.hostname_memory,
            ),
        ),
    )) by {
        if k > 12 {
            lemma_marks();
            reveal_with_fuel(lines_from, 2);
            lemma_line_reads(r, 12, nl + lines_from(r, 13, k, rest));
            lemma_tag_reads(nl, lines_from(r, 13, k, rest));
        }
    }
    let total = ended(spec_parse_total_line(rest_after(hostnames)));
    assert(k > 13 ==> total == Some((lines_from(r, 14, k, rest), r.total_channel_memory))) by {
        if k > 13 {
            lemma_marks();
            reveal_with_fuel(lines_from, 2);
            lemma_line_reads(r, 13, nl + lines_from(r, 14, k, rest));
            lemma_tag_reads(nl, lines_from(r, 14, k, rest));
        }
    }
    let local_client = ended(spec_parse_local_client_line(rest_after(total)));
    assert(k > 14 ==> local_client == Some(
        (
            lines_from(r, 15, k, rest),
            (
                r.local_client_count,
                r.local_client_memory,
            ),
        ),
    )) by {
        if k > 14 {
            lemma_marks();
            reveal_with_fuel(lines_from, 2);
            lemma_line_reads(r, 14, nl + lines_from(r, 15, k, rest));
            lemma_tag_reads(nl, lines_from(r, 15, k, rest));
        }
    }
    let remote_client = ended(spec_parse_remote_client_line(rest_after(local_client)));
    assert(k > 15 ==> remote_client == Some(
        (
            lines_from(r, 16, k, rest),
            (
                r.remote_client_count,
                r.remote_client_memory,
            ),
        ),
    )) by {
        if k > 15 {
            lemma_marks();
            reveal_with_fuel(lines_from, 2);
            lemma_line_reads(r, 15, nl + lines_from(r, 16, k, rest));
            lemma_tag_reads(nl, lines_from(r, 16, k, rest));
        }
    }
}

/// A literal is not read off a text that does not start with it.
pub proof fn lemma_tag_needs_label(label: Seq<u8>, x: Seq<u8>)
    requires
        !label.is_prefix_of(x),
    ensures
        spec_tag(label, x) is None,
{
    reveal(spec_tag);
}

/// A line is not read from a text that does not start with the line's
/// label.
pub proof fn lemma_line_needs_label(k: int, x: Seq<u8>)
    requires
        0 <= k < 17,
        !leading_label(k).is_prefix_of(x),
    ensures
        k == 0 ==> spec_parse_users_line(x) is None,
        k == 1 ==> spec_parse_user_channels_line(x) is None,
        k == 2 ==> spec_parse_attached_confs(x) is None,
        k == 3 ==> spec_parse_conflines(x) is None,
        k == 4 ==> spec_parse_classes(x) is None,
        k == 5 ==> spec_parse_channels(x) is None,
        k == 6 ==> spec_parse_bans(x) is None,
        k == 7 ==> spec_parse_channel_members(x) is None,
        k == 8 ==> spec_parse_whowas(x) is None,
        k == 9 ==> spec_parse_hash_line(x) is None,
        k == 10 ==> spec_parse_linebuf(x) is None,
        k == 11 ==> spec_parse_scache_line(x) is None,
        k == 12 ==> spec_parse_hostnames_line(x) is None,
        k == 13 ==> spec_parse_total_line(x) is None,
        k == 14 ==> spec_parse_local_client_line(x) is None,
        k == 15 ==> spec_parse_remote_client_line(x) is None,
        k == 16 ==> spec_parse_total_memory_line(x) is None,
{
    lemma_tag_needs_label(leading_label(k), x);
}

/// The line with ` Invites ` in it is not read where the text does not go on with
/// that label at its place.
proof fn lemma_needs_invites(r: StatsZ, x: Seq<u8>)
    requires
        !" Invites ".spec_bytes().is_prefix_of(x),
    ensures
        spec_parse_users_line(before_inner(r, 0) + x) is None,
{
    lemma_marks();
    lemma_tag_needs_label(" Invites ".spec_bytes(), x);
        lemma_sized_reads("Users ".spec_bytes(), r.users, r.users_memory, x);
}

/// The line with ` Aways ` in it is not read where the text does not go on with
/// that label at its place.
proof fn lemma_needs_aways(r: StatsZ, x: Seq<u8>)
    requires
        !" Aways ".spec_bytes().is_prefix_of(x),
    ensures
        spec_parse_user_channels_line(before_inner(r, 1) + x) is None,
{
    lemma_marks();
    lemma_tag_needs_label(" Aways ".spec_bytes(), x);
    lemma_sized_reads(
        "User channels ".spec_bytes(),
        r.user_channels,
        r.user_channels_memory,
        x,
    );
}

/// The line with ` Exceptions ` in it is not read where the text does not go on with
/// that label at its place.
proof fn lemma_needs_exceptions(r: StatsZ, x: Seq<u8>)
    requires
        !" Exceptions ".spec_bytes().is_prefix_of(x),
    ensures
        spec_parse_bans(before_inner(r, 2) + x) is None,
{
    lemma_marks();
    lemma_tag_needs_label(" Exceptions ".spec_bytes(), x);
        lemma_sized_reads("Bans ".spec_bytes(), r.channel_ban_count, r.channel_ban_memory, x);
}

/// The line with ` Invex ` in it is not read where the text does not go on with
/// that label at its place.
proof fn lemma_needs_invex(r: StatsZ, x: Seq<u8>)
    requires
        !" Invex ".spec_bytes().is_prefix_of(x),
    ensures
        spec_parse_bans(before_inner(r, 3) + x) is None,
{
    lemma_marks();
    lemma_tag_needs_label(" Invex ".spec_bytes(), x);
    lemma_line_4_reads(
        "Bans ".spec_bytes(),
        " Exceptions ".spec_bytes(),
        (
            r.channel_ban_count,
            r.channel_ban_memory,
            r.channel_exceptions_count,
            r.channel_exceptions_memory,
        ),
        x,
    );
}

/// The line with ` Quiets ` in it is not read where the text does not go on with
/// that label at its place.
proof fn lemma_needs_quiets(r: StatsZ, x: Seq<u8>)
    requires
        !" Quiets ".spec_bytes().is_prefix_of(x),
    ensures
        spec_parse_bans(before_inner(r, 4) + x) is None,
{
    lemma_marks();
    lemma_tag_needs_label(" Quiets ".spec_bytes(), x);
    let third = sized_text(
        " Invex ".spec_bytes(),
        r.channel_invex_count,
        r.channel_invex_memory,
    );
    assert(before_inner(r, 4) + x =~= sized_text(
        "Bans ".spec_bytes(),
        r.channel_ban_count,
        r.channel_ban_memory,
    ) + sized_text(
        " Exceptions ".spec_bytes(),
        r.channel_exceptions_count,
        r.channel_exceptions_memory,
    ) + (third + x));
    lemma_line_4_reads(
        "Bans ".spec_bytes(),
        " Exceptions ".spec_bytes(),
        (
            r.channel_ban_count,
            r.channel_ban_memory,
            r.channel_exceptions_count,
            r.channel_exceptions_memory,
        ),
        third + x,
    );
    lemma_sized_reads(
        " Invex ".spec_bytes(),
        r.channel_invex_count,
        r.channel_invex_memory,
        x,
    );
}

/// The line with ` invite ` in it is not read where the text does not go on with
/// that label at its place.
proof fn lemma_needs_invite_members(r: StatsZ, x: Seq<u8>)
    requires
        !" invite ".spec_bytes().is_prefix_of(x),
    ensures
        spec_parse_channel_members(before_inner(r, 5) + x) is None,
{
    lemma_marks();
    lemma_tag_needs_label(" invite ".spec_bytes(), x);
    lemma_sized_reads(
        "Channel members ".spec_bytes(),
        r.channel_members,
        r.channel_members_memory,
        x,
    );
}

/// The line with ` chan ` in it is not read where the text does not go on with
/// that label at its place.
proof fn lemma_needs_chan(r: StatsZ, x: Seq<u8>)
    requires
        !" chan ".spec_bytes().is_prefix_of(x),
    ensures
        spec_parse_hash_line(before_inner(r, 6) + x) is None,
{
    lemma_marks();
    lemma_tag_needs_label(" chan ".spec_bytes(), x);
    lemma_sized_reads(
        "Hash: client ".spec_bytes(),
        r.hash_client_count,
        r.hash_client_memory,
        x,
    );
}

/// The line with ` channel ` in it is not read where the text does not go on with
/// that label at its place.
proof fn lemma_needs_channel(r: StatsZ, x: Seq<u8>)
    requires
        !" channel ".spec_bytes().is_prefix_of(x),
        ends_number(x),
    ensures
        spec_parse_total_line(before_inner(r, 7) + x) is None,
{
    lemma_marks();
    lemma_tag_needs_label(" channel ".spec_bytes(), x);
    let first = "Total: whowas ".spec_bytes();
    let r1 = decimal_bytes(r.whowas_memory as nat) + x;
    assert(before_inner(r, 7) + x =~= first + r1);
    lemma_tag_reads(first, r1);
    lemma_number_reads(r.whowas_memory, x);
}

/// The line with ` conf ` in it is not read where the text does not go on with
/// that label at its place.
proof fn lemma_needs_conf(r: StatsZ, x: Seq<u8>)
    requires
        !" conf ".spec_bytes().is_prefix_of(x),
        ends_number(x),
    ensures
        spec_parse_total_line(before_inner(r, 8) + x) is None,
{
    lemma_marks();
    lemma_tag_needs_label(" conf ".spec_bytes(), x);
    let first = "Total: whowas ".spec_bytes();
    let second = " channel ".spec_bytes();
    let r3 = decimal_bytes(r.total_channel_memory as nat) + x;
    let r2 = second + r3;
    let r1 = decimal_bytes(r.whowas_memory as nat) + r2;
    assert(before_inner(r, 8) + x =~= first + r1);
    lemma_tag_reads(first, r1);
    assert(r2[0] == second[0]);
    lemma_number_reads(r.whowas_memory, r2);
    lemma_tag_reads(second, r3);
    lemma_number_reads(r.total_channel_memory, x);
}

/// A line is not read where, at the place of one of its inner labels,
/// the text does not go on with that label. Behind a number that stands
/// bare, the text must not go on with a digit either: a digit there would
/// belong to the number.
pub proof fn lemma_line_needs_inner_label(r: StatsZ, j: int, x: Seq<u8>)
    requires
        0 <= j < 9,
        !inner_label(j).is_prefix_of(x),
        j >= 7 ==> ends_number(x),
    ensures
        j == 0 ==> spec_parse_users_line(before_inner(r, 0) + x) is None,
        j == 1 ==> spec_parse_user_channels_line(before_inner(r, 1) + x) is None,
        j == 2 ==> spec_parse_bans(before_inner(r, 2) + x) is None,
        j == 3 ==> spec_parse_bans(before_inner(r, 3) + x) is None,
        j == 4 ==> spec_parse_bans(before_inner(r, 4) + x) is None,
        j == 5 ==> spec_parse_channel_members(before_inner(r, 5) + x) is None,
        j == 6 ==> spec_parse_hash_line(before_inner(r, 6) + x) is None,
        j == 7 ==> spec_parse_total_line(before_inner(r, 7) + x) is None,
        j == 8 ==> spec_parse_total_line(before_inner(r, 8) + x) is None,
{
    if j == 0 {
        lemma_needs_invites(r, x);
    } else if j == 1 {
        lemma_needs_aways(r, x);
    } else if j == 2 {
        lemma_needs_exceptions(r, x);
    } else if j == 3 {
        lemma_needs_invex(r, x);
    } else if j == 4 {
        lemma_needs_quiets(r, x);
    } else if j == 5 {
        lemma_needs_invite_members(r, x);
    } else if j == 6 {
        lemma_needs_chan(r, x);
    } else if j == 7 {
        lemma_needs_channel(r, x);
    } else if j == 8 {
        lemma_needs_conf(r, x);
    }
}

/// The text of any report is read back as that report.
pub proof fn lemma_report_text_reads_back(r: StatsZ)
    ensures
        spec_parse_stats_z(report_text(r)) == Some(r),
{
    reveal(spec_parse_stats_z);
    let last = report_line(r, 16);
    lemma_lines_read(r, 16, last);
    assert(lines_from(r, 16, 16, last) == last);
    assert(last =~= "TOTAL: ".spec_bytes() + (decimal_bytes(r.total as nat) + Seq::<u8>::empty()));
    lemma_tag_reads("TOTAL: ".spec_bytes(), decimal_bytes(r.total as nat) + Seq::<u8>::empty());
    lemma_number_reads(r.total, Seq::empty());
}

/// The text of a report without its last line is rejected.
pub proof fn lemma_report_without_last_line_is_rejected(r: StatsZ)
    ensures
        spec_parse_stats_z(report_text_cut(r)) is None,
{
    reveal(spec_parse_stats_z);
    let last = report_line(r, 15);
    lemma_lines_read(r, 15, last);
    assert(lines_from(r, 15, 15, last) == last);
    assert(last + Seq::<u8>::empty() =~= last);
    lemma_line_reads(r, 15, Seq::empty());
    lemma_marks();
    lemma_tag_needs_label("\n".spec_bytes(), Seq::empty());
}

/// A text that differs from a label at a place that both have does not
/// start with the label, whatever follows it.
pub proof fn lemma_changed_label_is_no_label(
    label: Seq<u8>,
    changed: Seq<u8>,
    rest: Seq<u8>,
    i: int,
)
    requires
        0 <= i < label.len(),
        i < changed.len(),
        label[i] != changed[i],
    ensures
        !label.is_prefix_of(changed + rest),
{
    let s = changed + rest;
    if label.is_prefix_of(s) {
        assert(s.subrange(0, label.len() as int)[i] == s[i]);
        assert(s[i] == changed[i]);
    }
}

/// A wrong label at the start of a line is rejected: where the lines before
/// line `k` are those of a report and what stands in the place of line `k`
/// does not start with the label of that line, the text is rejected,
/// whatever else it holds.
pub proof fn lemma_wrong_leading_label_is_rejected(r: StatsZ, k: int, x: Seq<u8>)
    requires
        0 <= k < 17,
        !leading_label(k).is_prefix_of(x),
    ensures
        spec_parse_stats_z(lines_from(r, 0, k, x)) is None,
{
    reveal(spec_parse_stats_z);
    lemma_lines_read(r, k, x);
    lemma_line_needs_label(k, x);
    assert(lines_from(r, k, k, x) == x);
}

/// A wrong label inside a line is rejected: where the text is that of a
/// report up to the place of the inner label `j` and does not go on with
/// that label there, the text is rejected, whatever else it holds. Behind a
/// number that stands bare the text must not go on with a digit either.
pub proof fn lemma_wrong_inner_label_is_rejected(r: StatsZ, j: int, x: Seq<u8>)
    requires
        0 <= j < 9,
        !inner_label(j).is_prefix_of(x),
        j >= 7 ==> ends_number(x),
    ensures
        spec_parse_stats_z(lines_from(r, 0, inner_line(j), before_inner(r, j) + x)) is None,
{
    reveal(spec_parse_stats_z);
    let k = inner_line(j);
    let y = before_inner(r, j) + x;
    lemma_lines_read(r, k, y);
    lemma_line_needs_inner_label(r, j, x);
    assert(lines_from(r, k, k, y) == y);
}

} // verus!
