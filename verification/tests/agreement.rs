//! The parser against a second statement of the grammar, written with nom's
//! combinators: both must make the same of every input tried.

use nom::bytes::complete::tag as nom_tag;
use nom::character::complete::{newline as nom_newline, u64 as nom_u64};
use nom::error::Error as NomError;
use nom::sequence::delimited;
use nom::{IResult, Parser};
use statsbot::parser::{newline, parse_number, parse_stats_z, tag, values};

type Res<'a, T> = IResult<&'a str, T, NomError<&'a str>>;

fn ref_pair<'a>(prefix: &'static str, input: &'a str) -> Res<'a, (u64, u64)> {
    let (r, _) = nom_tag(prefix).parse(input)?;
    let (r, v) = nom_u64.parse(r)?;
    let (r, v2) = delimited(nom_tag("("), nom_u64, nom_tag(")")).parse(r)?;
    Ok((r, (v, v2)))
}

fn ref_bare<'a>(prefix: &'static str, input: &'a str) -> Res<'a, u64> {
    let (r, _) = nom_tag(prefix).parse(input)?;
    nom_u64.parse(r)
}

fn ref_eol(input: &str) -> Res<'_, ()> {
    let (r, _) = nom_newline.parse(input)?;
    Ok((r, ()))
}

/// The numbers of a report in the order of the text, or `None`.
fn ref_report(input: &str) -> Option<Vec<u64>> {
    fn inner(input: &str) -> Res<'_, Vec<u64>> {
        let mut out = Vec::new();
        let mut r = input;
        let layout: [&[&'static str]; 13] = [
            &["Users ", " Invites "],
            &["User channels ", " Aways "],
            &["Attached confs "],
            &["Conflines "],
            &["Classes "],
            &["Channels "],
            &["Bans ", " Exceptions ", " Invex ", " Quiets "],
            &["Channel members ", " invite "],
            &["Whowas array "],
            &["Hash: client ", " chan "],
            &["linebuf "],
            &["scache "],
            &["hostname hash "],
        ];
        for line in layout {
            for label in line {
                let (rest, (a, b)) = ref_pair(label, r)?;
                out.push(a);
                out.push(b);
                r = rest;
            }
            r = ref_eol(r)?.0;
        }
        let (rest, _) = ref_bare("Total: whowas ", r)?;
        let (rest, channel) = ref_bare(" channel ", rest)?;
        let (rest, _) = ref_bare(" conf ", rest)?;
        out.push(channel);
        r = ref_eol(rest)?.0;
        for label in ["Local client Memory in use: ", "Remote client Memory in use: "] {
            let (rest, (a, b)) = ref_pair(label, r)?;
            out.push(a);
            out.push(b);
            r = ref_eol(rest)?.0;
        }
        let (rest, total) = ref_bare("TOTAL: ", r)?;
        out.push(total);
        Ok((rest, out))
    }
    match inner(input) {
        Ok(("", numbers)) => Some(numbers),
        _ => None,
    }
}

fn counters(input: &str) -> Option<Vec<u64>> {
    parse_stats_z(input)
        .ok()
        .map(|r| (0..46).map(|i| r.counter_at(i).unwrap()).collect())
}

const REPORT: &str = "Users 10175(1221000) Invites 0(0)
User channels 30651(735624) Aways 496(14282)
Attached confs 24(576)
Conflines 0(0)
Classes 12(960)
Channels 1988(816734)
Bans 826(66080) Exceptions 31(2480) Invex 552(44160) Quiets 131(10480)
Channel members 30651(735624) invite 0(0)
Whowas array 15000(5756672)
Hash: client 131072(3145728) chan 65536(1572864)
linebuf 0(0)
scache 8(1152)
hostname hash 131072(3145728)
Total: whowas 5756672 channel 1618438 conf 0
Local client Memory in use: 0(0)
Remote client Memory in use: 0(0)
TOTAL: 7377222";

const SAMPLES: [&str; 28] = [
    "",
    "0",
    "7",
    "007",
    "12a",
    "a12",
    " 12",
    "12 ",
    "+12",
    "-12",
    "1_000",
    "12.5",
    "18446744073709551615",
    "18446744073709551616",
    "18446744073709551615x",
    "18446744073709551616x",
    "000018446744073709551615",
    "99999999999999999999999999",
    "٣",
    "5٣",
    "１２",
    "é",
    "\n",
    "\r\n",
    "(",
    ")",
    "1(2)",
    "Users 1(2)",
];

#[test]
fn numbers_agree() {
    for s in SAMPLES {
        let ours = parse_number(s).ok();
        let theirs = nom_u64::<&str, NomError<&str>>(s).ok();
        assert_eq!(ours, theirs, "{:?}", s);
    }
}

#[test]
fn tags_agree() {
    let labels = ["", "Users ", "(", ")", "\n", "1", "é", "TOTAL: ", "18446744073709551615"];
    for label in labels {
        for s in SAMPLES.iter().chain(labels.iter()) {
            let ours = tag(label, s).ok();
            let theirs = nom_tag::<&str, &str, NomError<&str>>(label)
                .parse(*s)
                .ok()
                .map(|(rest, _)| rest);
            assert_eq!(ours, theirs, "{:?} {:?}", label, s);
        }
    }
    for s in SAMPLES {
        assert_eq!(newline(s).ok(), ref_eol(s).ok().map(|(rest, _)| rest), "{:?}", s);
    }
}

#[test]
fn pairs_agree() {
    for s in [
        "n 1(2)",
        "n 1(2)rest",
        "n 01(002)",
        "n 1 (2)",
        "n 1( 2)",
        "n 1()",
        "n (2)",
        "n 1(2",
        "n 1",
        "n ",
        "n",
        "",
        "m 1(2)",
        "n 18446744073709551615(18446744073709551615)",
        "n 18446744073709551616(0)",
        "n 0(18446744073709551616)",
    ] {
        assert_eq!(values("n ", s).ok(), ref_pair("n ", s).ok(), "{:?}", s);
    }
}

#[test]
fn the_report_agrees() {
    let numbers = counters(REPORT);
    assert!(numbers.is_some());
    assert_eq!(numbers, ref_report(REPORT));
}

#[test]
fn changed_reports_agree() {
    // Every way of dropping one character, of doubling one, and of putting
    // one of a few characters in its place.
    let chars: Vec<char> = REPORT.chars().collect();
    let mut accepted = 0;
    for i in 0..chars.len() {
        let mut variants: Vec<String> = Vec::new();
        let mut dropped = chars.clone();
        dropped.remove(i);
        variants.push(dropped.into_iter().collect());
        let mut doubled = chars.clone();
        doubled.insert(i, chars[i]);
        variants.push(doubled.into_iter().collect());
        for c in ['0', '9', ' ', '\n', '(', ')', 'x', 'é'] {
            let mut replaced = chars.clone();
            replaced[i] = c;
            variants.push(replaced.into_iter().collect());
        }
        for v in variants {
            let ours = counters(&v);
            assert_eq!(ours, ref_report(&v), "{:?}", v);
            if ours.is_some() {
                accepted += 1;
            }
        }
    }
    // Changes among the digits leave a report; it is a different one, or
    // the same where a digit took its own place.
    assert!(accepted > 0);
    // Cutting the text short anywhere but inside the last number leaves none.
    for n in 0..REPORT.len() {
        let cut = &REPORT[..n];
        let ours = counters(cut);
        assert_eq!(ours, ref_report(cut), "{:?}", cut);
        assert_eq!(ours.is_some(), n > REPORT.len() - 7, "{}", n);
    }
}
