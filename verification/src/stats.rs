//! The counters of one memory report.

use crate::text::{
    closed_lines, decimal_text, has_line, lemma_closed_lines_concat, lemma_line_in_context, line_at,
    opt_as_str, opt_str_text, opt_text, push_decimal,
};
use vstd::prelude::*;
use vstd::string::*;

verus! {

/// How many counters a report holds.
pub const COUNTERS: usize = 46;

/// One server's memory report: how many objects of each kind the server
/// holds and the bytes they take. A report is always whole: the parser makes
/// one only from a text that gave every counter.
///
/// The comment above each group of fields shows the line of the report that
/// the group is read from.
#[derive(Debug, Clone, Copy, PartialEq, Eq, Structural)]
pub struct StatsZ {
    // `Users 10175(1221000) Invites 0(0)`
    pub users: u64,
    pub users_memory: u64,
    pub users_invited: u64,
    pub users_invited_memory: u64,
    // `User channels 30651(735624) Aways 496(14282)`
    pub user_channels: u64,
    pub user_channels_memory: u64,
    pub users_away: u64,
    pub users_away_memory: u64,
    // `Attached confs 24(576)`
    pub local_client_conf_count: u64,
    pub local_client_conf_memory: u64,
    // `Conflines 0(0)`
    pub conf_count: u64,
    pub conf_memory: u64,
    // `Classes 12(960)`
    pub classes_count: u64,
    pub classes_memory: u64,
    // `Channels 1988(816734)`
    pub channels_count: u64,
    pub channels_memory: u64,
    // `Bans 826(66080) Exceptions 31(2480) Invex 552(44160) Quiets 131(10480)`
    pub channel_ban_count: u64,
    pub channel_ban_memory: u64,
    pub channel_exceptions_count: u64,
    pub channel_exceptions_memory: u64,
    pub channel_invex_count: u64,
    pub channel_invex_memory: u64,
    pub channel_quiets_count: u64,
    pub channel_quiets_memory: u64,
    // `Channel members 30651(735624) invite 0(0)`
    pub channel_members: u64,
    pub channel_members_memory: u64,
    pub channel_invites_count: u64,
    pub channel_invites_memory: u64,
    // `Whowas array 15000(5756672)`
    pub whowas_count: u64,
    pub whowas_memory: u64,
    // `Hash: client 131072(3145728) chan 65536(1572864)`
    pub hash_client_count: u64,
    pub hash_client_memory: u64,
    pub hash_channel_count: u64,
    pub hash_channel_memory: u64,
    // `linebuf 0(0)`
    pub linebuf_count: u64,
    pub linebuf_memory: u64,
    // `scache 8(1152)`
    pub servers_cached_number: u64,
    pub servers_cached_memory: u64,
    // `hostname hash 131072(3145728)`
    pub hostname_count: u64,
    pub hostname_memory: u64,
    // `Total: whowas 5756672 channel 1618438 conf 0`; the first and last
    // numbers repeat `whowas_memory` and `conf_memory` and are not kept
    pub total_channel_memory: u64,
    // `Local client Memory in use: 0(0)`
    pub local_client_count: u64,
    pub local_client_memory: u64,
    // `Remote client Memory in use: 0(0)`
    pub remote_client_count: u64,
    pub remote_client_memory: u64,
    // `TOTAL: 7377222`
    pub total: u64,
}

impl StatsZ {
    /// The counter at position `i` in the order of declaration; 0 where there is none.
    pub open spec fn counter(self, i: int) -> u64 {
        if i == 0 {
            self.users
        } else if i == 1 {
            self.users_memory
        } else if i == 2 {
            self.users_invited
        } else if i == 3 {
            self.users_invited_memory
        } else if i == 4 {
            self.user_channels
        } else if i == 5 {
            self.user_channels_memory
        } else if i == 6 {
            self.users_away
        } else if i == 7 {
            self.users_away_memory
        } else if i == 8 {
            self.local_client_conf_count
        } else if i == 9 {
            self.local_client_conf_memory
        } else if i == 10 {
            self.conf_count
        } else if i == 11 {
            self.conf_memory
        } else if i == 12 {
            self.classes_count
        } else if i == 13 {
            self.classes_memory
        } else if i == 14 {
            self.channels_count
        } else if i == 15 {
            self.channels_memory
        } else if i == 16 {
            self.channel_ban_count
        } else if i == 17 {
            self.channel_ban_memory
        } else if i == 18 {
            self.channel_exceptions_count
        } else if i == 19 {
            self.channel_exceptions_memory
        } else if i == 20 {
            self.channel_invex_count
        } else if i == 21 {
            self.channel_invex_memory
        } else if i == 22 {
            self.channel_quiets_count
        } else if i == 23 {
            self.channel_quiets_memory
        } else if i == 24 {
            self.channel_members
        } else if i == 25 {
            self.channel_members_memory
        } else if i == 26 {
            self.channel_invites_count
        } else if i == 27 {
            self.channel_invites_memory
        } else if i == 28 {
            self.whowas_count
        } else if i == 29 {
            self.whowas_memory
        } else if i == 30 {
            self.hash_client_count
        } else if i == 31 {
            self.hash_client_memory
        } else if i == 32 {
            self.hash_channel_count
        } else if i == 33 {
            self.hash_channel_memory
        } else if i == 34 {
            self.linebuf_count
        } else if i == 35 {
            self.linebuf_memory
        } else if i == 36 {
            self.servers_cached_number
        } else if i == 37 {
            self.servers_cached_memory
        } else if i == 38 {
            self.hostname_count
        } else if i == 39 {
            self.hostname_memory
        } else if i == 40 {
            self.total_channel_memory
        } else if i == 41 {
            self.local_client_count
        } else if i == 42 {
            self.local_client_memory
        } else if i == 43 {
            self.remote_client_count
        } else if i == 44 {
            self.remote_client_memory
        } else if i == 45 {
            self.total
        } else {
            0
        }
    }

    /// The name of the counter at position `i`; empty where there is none.
    pub open spec fn counter_name(i: int) -> Seq<char> {
        if i == 0 {
            "users"@
        } else if i == 1 {
            "users_memory"@
        } else if i == 2 {
            "users_invited"@
        } else if i == 3 {
            "users_invited_memory"@
        } else if i == 4 {
            "user_channels"@
        } else if i == 5 {
            "user_channels_memory"@
        } else if i == 6 {
            "users_away"@
        } else if i == 7 {
            "users_away_memory"@
        } else if i == 8 {
            "local_client_conf_count"@
        } else if i == 9 {
            "local_client_conf_memory"@
        } else if i == 10 {
            "conf_count"@
        } else if i == 11 {
            "conf_memory"@
        } else if i == 12 {
            "classes_count"@
        } else if i == 13 {
            "classes_memory"@
        } else if i == 14 {
            "channels_count"@
        } else if i == 15 {
            "channels_memory"@
        } else if i == 16 {
            "channel_ban_count"@
        } else if i == 17 {
            "channel_ban_memory"@
        } else if i == 18 {
            "channel_exceptions_count"@
        } else if i == 19 {
            "channel_exceptions_memory"@
        } else if i == 20 {
            "channel_invex_count"@
        } else if i == 21 {
            "channel_invex_memory"@
        } else if i == 22 {
            "channel_quiets_count"@
        } else if i == 23 {
            "channel_quiets_memory"@
        } else if i == 24 {
            "channel_members"@
        } else if i == 25 {
            "channel_members_memory"@
        } else if i == 26 {
            "channel_invites_count"@
        } else if i == 27 {
            "channel_invites_memory"@
        } else if i == 28 {
            "whowas_count"@
        } else if i == 29 {
            "whowas_memory"@
        } else if i == 30 {
            "hash_client_count"@
        } else if i == 31 {
            "hash_client_memory"@
        } else if i == 32 {
            "hash_channel_count"@
        } else if i == 33 {
            "hash_channel_memory"@
        } else if i == 34 {
            "linebuf_count"@
        } else if i == 35 {
            "linebuf_memory"@
        } else if i == 36 {
            "servers_cached_number"@
        } else if i == 37 {
            "servers_cached_memory"@
        } else if i == 38 {
            "hostname_count"@
        } else if i == 39 {
            "hostname_memory"@
        } else if i == 40 {
            "total_channel_memory"@
        } else if i == 41 {
            "local_client_count"@
        } else if i == 42 {
            "local_client_memory"@
        } else if i == 43 {
            "remote_client_count"@
        } else if i == 44 {
            "remote_client_memory"@
        } else if i == 45 {
            "total"@
        } else {
            Seq::empty()
        }
    }

    /// The counter at position `i`, if there is one.
    pub fn counter_at(&self, i: usize) -> (r: Option<u64>)
        ensures
            r == (if i < COUNTERS {
                Some(self.counter(i as int))
            } else {
                None
            }),
    {
        match i {
            0 => Some(self.users),
            1 => Some(self.users_memory),
            2 => Some(self.users_invited),
            3 => Some(self.users_invited_memory),
            4 => Some(self.user_channels),
            5 => Some(self.user_channels_memory),
            6 => Some(self.users_away),
            7 => Some(self.users_away_memory),
            8 => Some(self.local_client_conf_count),
            9 => Some(self.local_client_conf_memory),
            10 => Some(self.conf_count),
            11 => Some(self.conf_memory),
            12 => Some(self.classes_count),
            13 => Some(self.classes_memory),
            14 => Some(self.channels_count),
            15 => Some(self.channels_memory),
            16 => Some(self.channel_ban_count),
            17 => Some(self.channel_ban_memory),
            18 => Some(self.channel_exceptions_count),
            19 => Some(self.channel_exceptions_memory),
            20 => Some(self.channel_invex_count),
            21 => Some(self.channel_invex_memory),
            22 => Some(self.channel_quiets_count),
            23 => Some(self.channel_quiets_memory),
            24 => Some(self.channel_members),
            25 => Some(self.channel_members_memory),
            26 => Some(self.channel_invites_count),
            27 => Some(self.channel_invites_memory),
            28 => Some(self.whowas_count),
            29 => Some(self.whowas_memory),
            30 => Some(self.hash_client_count),
            31 => Some(self.hash_client_memory),
            32 => Some(self.hash_channel_count),
            33 => Some(self.hash_channel_memory),
            34 => Some(self.linebuf_count),
            35 => Some(self.linebuf_memory),
            36 => Some(self.servers_cached_number),
            37 => Some(self.servers_cached_memory),
            38 => Some(self.hostname_count),
            39 => Some(self.hostname_memory),
            40 => Some(self.total_channel_memory),
            41 => Some(self.local_client_count),
            42 => Some(self.local_client_memory),
            43 => Some(self.remote_client_count),
            44 => Some(self.remote_client_memory),
            45 => Some(self.total),
            _ => None,
        }
    }

    /// The name of the counter at position `i`, if there is one.
    pub fn name_at(i: usize) -> (r: Option<&'static str>)
        ensures
            i < COUNTERS ==> (r matches Some(s) && s@ == Self::counter_name(i as int)),
            i >= COUNTERS ==> r is None,
    {
        match i {
            0 => Some("users"),
            1 => Some("users_memory"),
            2 => Some("users_invited"),
            3 => Some("users_invited_memory"),
            4 => Some("user_channels"),
            5 => Some("user_channels_memory"),
            6 => Some("users_away"),
            7 => Some("users_away_memory"),
            8 => Some("local_client_conf_count"),
            9 => Some("local_client_conf_memory"),
            10 => Some("conf_count"),
            11 => Some("conf_memory"),
            12 => Some("classes_count"),
            13 => Some("classes_memory"),
            14 => Some("channels_count"),
            15 => Some("channels_memory"),
            16 => Some("channel_ban_count"),
            17 => Some("channel_ban_memory"),
            18 => Some("channel_exceptions_count"),
            19 => Some("channel_exceptions_memory"),
            20 => Some("channel_invex_count"),
            21 => Some("channel_invex_memory"),
            22 => Some("channel_quiets_count"),
            23 => Some("channel_quiets_memory"),
            24 => Some("channel_members"),
            25 => Some("channel_members_memory"),
            26 => Some("channel_invites_count"),
            27 => Some("channel_invites_memory"),
            28 => Some("whowas_count"),
            29 => Some("whowas_memory"),
            30 => Some("hash_client_count"),
            31 => Some("hash_client_memory"),
            32 => Some("hash_channel_count"),
            33 => Some("hash_channel_memory"),
            34 => Some("linebuf_count"),
            35 => Some("linebuf_memory"),
            36 => Some("servers_cached_number"),
            37 => Some("servers_cached_memory"),
            38 => Some("hostname_count"),
            39 => Some("hostname_memory"),
            40 => Some("total_channel_memory"),
            41 => Some("local_client_count"),
            42 => Some("local_client_memory"),
            43 => Some("remote_client_count"),
            44 => Some("remote_client_memory"),
            45 => Some("total"),
            _ => None,
        }
    }
}

impl Default for StatsZ {
    /// The report with every counter at zero.
    fn default() -> (r: Self)
        ensures
            forall|i: int| 0 <= i < COUNTERS ==> r.counter(i) == 0,
    {
        StatsZ {
            users: 0,
            users_memory: 0,
            users_invited: 0,
            users_invited_memory: 0,
            user_channels: 0,
            user_channels_memory: 0,
            users_away: 0,
            users_away_memory: 0,
            local_client_conf_count: 0,
            local_client_conf_memory: 0,
            conf_count: 0,
            conf_memory: 0,
            classes_count: 0,
            classes_memory: 0,
            channels_count: 0,
            channels_memory: 0,
            channel_ban_count: 0,
            channel_ban_memory: 0,
            channel_exceptions_count: 0,
            channel_exceptions_memory: 0,
            channel_invex_count: 0,
            channel_invex_memory: 0,
            channel_quiets_count: 0,
            channel_quiets_memory: 0,
            channel_members: 0,
            channel_members_memory: 0,
            channel_invites_count: 0,
            channel_invites_memory: 0,
            whowas_count: 0,
            whowas_memory: 0,
            hash_client_count: 0,
            hash_client_memory: 0,
            hash_channel_count: 0,
            hash_channel_memory: 0,
            linebuf_count: 0,
            linebuf_memory: 0,
            servers_cached_number: 0,
            servers_cached_memory: 0,
            hostname_count: 0,
            hostname_memory: 0,
            total_channel_memory: 0,
            local_client_count: 0,
            local_client_memory: 0,
            remote_client_count: 0,
            remote_client_memory: 0,
            total: 0,
        }
    }
}

/// One line of exposition text: the metric's name, the server as a label if
/// one is given, the value in base ten, and a line feed.
pub open spec fn metric_line(name: Seq<char>, server: Option<Seq<char>>, value: u64) -> Seq<char> {
    match server {
        Some(server) => name + "{server=\""@ + server + "\"} "@ + decimal_text(value as nat)
            + "\n"@,
        None => name + " "@ + decimal_text(value as nat) + "\n"@,
    }
}

/// A metric's line is closed by a line feed.
pub proof fn lemma_metric_line_closed(name: Seq<char>, server: Option<Seq<char>>, value: u64)
    ensures
        metric_line(name, server, value).len() > 0,
        metric_line(name, server, value).last() == '\n',
{
    reveal_strlit("\n");
}

/// Appends the line for one metric to `out`.
pub fn push_metric(out: &mut String, name: &str, server: Option<&str>, value: u64)
    ensures
        final(out)@ == old(out)@ + metric_line(name@, opt_str_text(server), value),
{
    out.append(name);
    match server {
        Some(server) => {
            out.append("{server=\"");
            out.append(server);
            out.append("\"} ");
        },
        None => {
            out.append(" ");
        },
    }
    push_decimal(out, value);
    out.append("\n");
    assert(final(out)@ =~= old(out)@ + metric_line(name@, opt_str_text(server), value));
}

/// `core::fmt::Error`, the error that formatting into a string can report.
/// It is carried in the result of [`SimplePrometheus::to_prometheus_metrics`]
/// and never looked into.
#[verifier::external_type_specification]
#[verifier::external_body]
pub struct ExFmtError(core::fmt::Error);

/// A record that can be written as exposition text, one line for each of its
/// counters.
pub trait SimplePrometheus {
    /// The exposition text of the record, labelled with `server` if one is given.
    spec fn exposition(&self, server: Option<Seq<char>>) -> Seq<char>;

    /// Writes the record as exposition text.
    fn to_prometheus_metrics(&self, server: Option<String>) -> (r: Result<String, core::fmt::Error>)
        ensures
            r matches Ok(text) ==> text@ == self.exposition(opt_text(server)),
    ;
}

impl StatsZ {
    /// The lines of the first `n` counters, in the order of declaration.
    pub open spec fn exposition_prefix(self, server: Option<Seq<char>>, n: nat) -> Seq<char>
        decreases n,
    {
        if n == 0 {
            Seq::empty()
        } else {
            self.exposition_prefix(server, (n - 1) as nat) + metric_line(
                Self::counter_name(n - 1),
                server,
                self.counter(n - 1),
            )
        }
    }

    /// The text of the first `n` counters is made of whole lines.
    pub proof fn lemma_exposition_closed(self, server: Option<Seq<char>>, n: nat)
        ensures
            closed_lines(self.exposition_prefix(server, n)),
        decreases n,
    {
        if n > 0 {
            let m = (n - 1) as nat;
            let line = metric_line(Self::counter_name(m as int), server, self.counter(m as int));
            self.lemma_exposition_closed(server, m);
            lemma_metric_line_closed(Self::counter_name(m as int), server, self.counter(m as int));
            lemma_closed_lines_concat(self.exposition_prefix(server, m), line);
        }
    }

    /// The text of the first `n` counters holds the line of each of them.
    pub proof fn lemma_exposition_has_line(self, server: Option<Seq<char>>, n: nat, i: int)
        requires
            0 <= i < n,
        ensures
            has_line(
                self.exposition_prefix(server, n),
                metric_line(Self::counter_name(i), server, self.counter(i)),
            ),
        decreases n,
    {
        let m = (n - 1) as nat;
        let line = metric_line(Self::counter_name(i), server, self.counter(i));
        let last = metric_line(Self::counter_name(m as int), server, self.counter(m as int));
        let init = self.exposition_prefix(server, m);
        if i == m {
            self.lemma_exposition_closed(server, m);
            assert(line_at(line, line, 0)) by {
                assert(line.subrange(0, line.len() as int) =~= line);
            }
            lemma_line_in_context(init, line, Seq::empty(), line);
            assert(init + line + Seq::<char>::empty() =~= init + line);
        } else {
            self.lemma_exposition_has_line(server, m, i);
            lemma_line_in_context(Seq::empty(), init, last, line);
            assert(Seq::<char>::empty() + init + last =~= init + last);
        }
    }

    /// Appends the report's exposition text to `out`.
    pub fn write_metrics(&self, out: &mut String, server: Option<&str>)
        ensures
            final(out)@ == old(out)@ + self.exposition(opt_str_text(server)),
    {
        let mut i: usize = 0;
        while i < COUNTERS
            invariant
                i <= COUNTERS,
                out@ == old(out)@ + self.exposition_prefix(opt_str_text(server), i as nat),
            decreases COUNTERS - i,
        {
            let name = Self::name_at(i);
            let value = self.counter_at(i);
            match (name, value) {
                (Some(name), Some(value)) => {
                    push_metric(out, name, server, value);
                },
                _ => {},
            }
            i += 1;
            assert(out@ =~= old(out)@ + self.exposition_prefix(opt_str_text(server), i as nat));
        }
    }
}

impl SimplePrometheus for StatsZ {
    /// One line for each counter, named as the field is, in the order of
    /// declaration.
    open spec fn exposition(&self, server: Option<Seq<char>>) -> Seq<char> {
        self.exposition_prefix(server, COUNTERS as nat)
    }

    /// Writes the report as exposition text. This never fails.
    fn to_prometheus_metrics(&self, server: Option<String>) -> (r: Result<String, core::fmt::Error>)
        ensures
            r is Ok,
    {
        let mut out = String::new();
        self.write_metrics(&mut out, opt_as_str(&server));
        assert(out@ =~= self.exposition(opt_text(server)));
        Ok(out)
    }
}

} // verus!
