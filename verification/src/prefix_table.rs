//! The table of unit prefixes.
//!
//! Each entry gives a prefix in its long and its short spelling. The order of
//! the entries matters: where a token can be split in more than one way, the
//! entry that comes first decides. Metric prefixes come before binary ones;
//! the metric ones ascend from `quecto` to `quetta`.

use crate::prefix::Prefix;
use vstd::prelude::*;

verus! {

/// The two spellings of a prefix: the long one (`kilo`, `kibi`) and the short
/// one (`k`, `Ki`).
#[derive(Debug, Clone, Copy, PartialEq, Eq, Structural)]
pub enum PrefixForm {
    Long,
    Short,
}

/// One prefix with its two spellings.
#[derive(Debug, Clone, Copy)]
pub struct PrefixEntry {
    pub long: &'static str,
    pub short: &'static str,
    pub prefix: Prefix,
}

/// What a `PrefixEntry` stands for: its spellings as character sequences.
pub struct PrefixSpelling {
    pub long: Seq<char>,
    pub short: Seq<char>,
    pub prefix: Prefix,
}

impl PrefixSpelling {
    /// The spelling of this entry in the form `form`.
    pub open spec fn spelling(self, form: PrefixForm) -> Seq<char> {
        match form {
            PrefixForm::Long => self.long,
            PrefixForm::Short => self.short,
        }
    }
}

impl PrefixEntry {
    /// The spelling of this entry in the form `form`.
    pub fn spelling(&self, form: PrefixForm) -> (spelling: &'static str)
        ensures
            spelling@ == self@.spelling(form),
    {
        match form {
            PrefixForm::Long => self.long,
            PrefixForm::Short => self.short,
        }
    }
}

impl View for PrefixEntry {
    type V = PrefixSpelling;

    open spec fn view(&self) -> PrefixSpelling {
        PrefixSpelling { long: self.long@, short: self.short@, prefix: self.prefix }
    }
}

/// The number of entries of the prefix table.
pub const PREFIX_COUNT: usize = 32;

/// The entry of the metric prefix `10^exponent` with its two spellings.
pub open spec fn metric(long: &str, short: &str, exponent: i32) -> PrefixSpelling {
    PrefixSpelling { long: long@, short: short@, prefix: Prefix::Metric(exponent) }
}

/// The entry of the binary prefix `2^exponent` with its two spellings.
pub open spec fn binary(long: &str, short: &str, exponent: i32) -> PrefixSpelling {
    PrefixSpelling { long: long@, short: short@, prefix: Prefix::Binary(exponent) }
}

/// The prefix table, in the order in which resolution tries its entries.
pub open spec fn prefix_table() -> Seq<PrefixSpelling> {
    seq![
        metric("quecto", "q", -30i32),
        metric("ronto", "r", -27i32),
        metric("yocto", "y", -24i32),
        metric("zepto", "z", -21i32),
        metric("atto", "a", -18i32),
        metric("femto", "f", -15i32),
        metric("pico", "p", -12i32),
        metric("nano", "n", -9i32),
        metric("micro", "µ", -6i32),
        metric("milli", "m", -3i32),
        metric("centi", "c", -2i32),
        metric("deci", "d", -1i32),
        metric("deca", "da", 1i32),
        metric("hecto", "h", 2i32),
        metric("kilo", "k", 3i32),
        metric("mega", "M", 6i32),
        metric("giga", "G", 9i32),
        metric("tera", "T", 12i32),
        metric("peta", "P", 15i32),
        metric("exa", "E", 18i32),
        metric("zetta", "Z", 21i32),
        metric("yotta", "Y", 24i32),
        metric("ronna", "R", 27i32),
        metric("quetta", "Q", 30i32),
        binary("kibi", "Ki", 10i32),
        binary("mebi", "Mi", 20i32),
        binary("gibi", "Gi", 30i32),
        binary("tebi", "Ti", 40i32),
        binary("pebi", "Pi", 50i32),
        binary("exbi", "Ei", 60i32),
        binary("zebi", "Zi", 70i32),
        binary("yobi", "Yi", 80i32),
    ]
}

/// The entry of the prefix table at `index`.
pub(crate) fn prefix_entry(index: usize) -> (entry: PrefixEntry)
    requires
        index < PREFIX_COUNT,
    ensures
        entry@ == prefix_table()[index as int],
{
    match index {
        0 => PrefixEntry { long: "quecto", short: "q", prefix: Prefix::Metric(-30) },
        1 => PrefixEntry { long: "ronto", short: "r", prefix: Prefix::Metric(-27) },
        2 => PrefixEntry { long: "yocto", short: "y", prefix: Prefix::Metric(-24) },
        3 => PrefixEntry { long: "zepto", short: "z", prefix: Prefix::Metric(-21) },
        4 => PrefixEntry { long: "atto", short: "a", prefix: Prefix::Metric(-18) },
        5 => PrefixEntry { long: "femto", short: "f", prefix: Prefix::Metric(-15) },
        6 => PrefixEntry { long: "pico", short: "p", prefix: Prefix::Metric(-12) },
        7 => PrefixEntry { long: "nano", short: "n", prefix: Prefix::Metric(-9) },
        8 => PrefixEntry { long: "micro", short: "µ", prefix: Prefix::Metric(-6) },
        9 => PrefixEntry { long: "milli", short: "m", prefix: Prefix::Metric(-3) },
        10 => PrefixEntry { long: "centi", short: "c", prefix: Prefix::Metric(-2) },
        11 => PrefixEntry { long: "deci", short: "d", prefix: Prefix::Metric(-1) },
        12 => PrefixEntry { long: "deca", short: "da", prefix: Prefix::Metric(1) },
        13 => PrefixEntry { long: "hecto", short: "h", prefix: Prefix::Metric(2) },
        14 => PrefixEntry { long: "kilo", short: "k", prefix: Prefix::Metric(3) },
        15 => PrefixEntry { long: "mega", short: "M", prefix: Prefix::Metric(6) },
        16 => PrefixEntry { long: "giga", short: "G", prefix: Prefix::Metric(9) },
        17 => PrefixEntry { long: "tera", short: "T", prefix: Prefix::Metric(12) },
        18 => PrefixEntry { long: "peta", short: "P", prefix: Prefix::Metric(15) },
        19 => PrefixEntry { long: "exa", short: "E", prefix: Prefix::Metric(18) },
        20 => PrefixEntry { long: "zetta", short: "Z", prefix: Prefix::Metric(21) },
        21 => PrefixEntry { long: "yotta", short: "Y", prefix: Prefix::Metric(24) },
        22 => PrefixEntry { long: "ronna", short: "R", prefix: Prefix::Metric(27) },
        23 => PrefixEntry { long: "quetta", short: "Q", prefix: Prefix::Metric(30) },
        24 => PrefixEntry { long: "kibi", short: "Ki", prefix: Prefix::Binary(10) },
        25 => PrefixEntry { long: "mebi", short: "Mi", prefix: Prefix::Binary(20) },
        26 => PrefixEntry { long: "gibi", short: "Gi", prefix: Prefix::Binary(30) },
        27 => PrefixEntry { long: "tebi", short: "Ti", prefix: Prefix::Binary(40) },
        28 => PrefixEntry { long: "pebi", short: "Pi", prefix: Prefix::Binary(50) },
        29 => PrefixEntry { long: "exbi", short: "Ei", prefix: Prefix::Binary(60) },
        30 => PrefixEntry { long: "zebi", short: "Zi", prefix: Prefix::Binary(70) },
        _ => PrefixEntry { long: "yobi", short: "Yi", prefix: Prefix::Binary(80) },
    }
}

/// `text` has `length` characters, of which the first four, as far as there
/// are that many, are `first`, `second`, `third` and `fourth`.
spec fn begins(
    text: Seq<char>,
    length: int,
    first: char,
    second: char,
    third: char,
    fourth: char,
) -> bool {
    &&& text.len() == length
    &&& length > 0 ==> text[0] == first
    &&& length > 1 ==> text[1] == second
    &&& length > 2 ==> text[2] == third
    &&& length > 3 ==> text[3] == fourth
}

/// The length and the first characters of every spelling in the table. No two
/// spellings agree in both.
proof fn lemma_table_spelled_out()
    ensures
        prefix_table().len() == PREFIX_COUNT,
        begins(prefix_table()[0].long, 6, 'q', 'u', 'e', 'c'),
        begins(prefix_table()[0].short, 1, 'q', ' ', ' ', ' '),
        begins(prefix_table()[1].long, 5, 'r', 'o', 'n', 't'),
        begins(prefix_table()[1].short, 1, 'r', ' ', ' ', ' '),
        begins(prefix_table()[2].long, 5, 'y', 'o', 'c', 't'),
        begins(prefix_table()[2].short, 1, 'y', ' ', ' ', ' '),
        begins(prefix_table()[3].long, 5, 'z', 'e', 'p', 't'),
        begins(prefix_table()[3].short, 1, 'z', ' ', ' ', ' '),
        begins(prefix_table()[4].long, 4, 'a', 't', 't', 'o'),
        begins(prefix_table()[4].short, 1, 'a', ' ', ' ', ' '),
        begins(prefix_table()[5].long, 5, 'f', 'e', 'm', 't'),
        begins(prefix_table()[5].short, 1, 'f', ' ', ' ', ' '),
        begins(prefix_table()[6].long, 4, 'p', 'i', 'c', 'o'),
        begins(prefix_table()[6].short, 1, 'p', ' ', ' ', ' '),
        begins(prefix_table()[7].long, 4, 'n', 'a', 'n', 'o'),
        begins(prefix_table()[7].short, 1, 'n', ' ', ' ', ' '),
        begins(prefix_table()[8].long, 5, 'm', 'i', 'c', 'r'),
        begins(prefix_table()[8].short, 1, 'µ', ' ', ' ', ' '),
        begins(prefix_table()[9].long, 5, 'm', 'i', 'l', 'l'),
        begins(prefix_table()[9].short, 1, 'm', ' ', ' ', ' '),
        begins(prefix_table()[10].long, 5, 'c', 'e', 'n', 't'),
        begins(prefix_table()[10].short, 1, 'c', ' ', ' ', ' '),
        begins(prefix_table()[11].long, 4, 'd', 'e', 'c', 'i'),
        begins(prefix_table()[11].short, 1, 'd', ' ', ' ', ' '),
        begins(prefix_table()[12].long, 4, 'd', 'e', 'c', 'a'),
        begins(prefix_table()[12].short, 2, 'd', 'a', ' ', ' '),
        begins(prefix_table()[13].long, 5, 'h', 'e', 'c', 't'),
        begins(prefix_table()[13].short, 1, 'h', ' ', ' ', ' '),
        begins(prefix_table()[14].long, 4, 'k', 'i', 'l', 'o'),
        begins(prefix_table()[14].short, 1, 'k', ' ', ' ', ' '),
        begins(prefix_table()[15].long, 4, 'm', 'e', 'g', 'a'),
        begins(prefix_table()[15].short, 1, 'M', ' ', ' ', ' '),
        begins(prefix_table()[16].long, 4, 'g', 'i', 'g', 'a'),
        begins(prefix_table()[16].short, 1, 'G', ' ', ' ', ' '),
        begins(prefix_table()[17].long, 4, 't', 'e', 'r', 'a'),
        begins(prefix_table()[17].short, 1, 'T', ' ', ' ', ' '),
        begins(prefix_table()[18].long, 4, 'p', 'e', 't', 'a'),
        begins(prefix_table()[18].short, 1, 'P', ' ', ' ', ' '),
        begins(prefix_table()[19].long, 3, 'e', 'x', 'a', ' '),
        begins(prefix_table()[19].short, 1, 'E', ' ', ' ', ' '),
        begins(prefix_table()[20].long, 5, 'z', 'e', 't', 't'),
        begins(prefix_table()[20].short, 1, 'Z', ' ', ' ', ' '),
        begins(prefix_table()[21].long, 5, 'y', 'o', 't', 't'),
        begins(prefix_table()[21].short, 1, 'Y', ' ', ' ', ' '),
        begins(prefix_table()[22].long, 5, 'r', 'o', 'n', 'n'),
        begins(prefix_table()[22].short, 1, 'R', ' ', ' ', ' '),
        begins(prefix_table()[23].long, 6, 'q', 'u', 'e', 't'),
        begins(prefix_table()[23].short, 1, 'Q', ' ', ' ', ' '),
        begins(prefix_table()[24].long, 4, 'k', 'i', 'b', 'i'),
        begins(prefix_table()[24].short, 2, 'K', 'i', ' ', ' '),
        begins(prefix_table()[25].long, 4, 'm', 'e', 'b', 'i'),
        begins(prefix_table()[25].short, 2, 'M', 'i', ' ', ' '),
        begins(prefix_table()[26].long, 4, 'g', 'i', 'b', 'i'),
        begins(prefix_table()[26].short, 2, 'G', 'i', ' ', ' '),
        begins(prefix_table()[27].long, 4, 't', 'e', 'b', 'i'),
        begins(prefix_table()[27].short, 2, 'T', 'i', ' ', ' '),
        begins(prefix_table()[28].long, 4, 'p', 'e', 'b', 'i'),
        begins(prefix_table()[28].short, 2, 'P', 'i', ' ', ' '),
        begins(prefix_table()[29].long, 4, 'e', 'x', 'b', 'i'),
        begins(prefix_table()[29].short, 2, 'E', 'i', ' ', ' '),
        begins(prefix_table()[30].long, 4, 'z', 'e', 'b', 'i'),
        begins(prefix_table()[30].short, 2, 'Z', 'i', ' ', ' '),
        begins(prefix_table()[31].long, 4, 'y', 'o', 'b', 'i'),
        begins(prefix_table()[31].short, 2, 'Y', 'i', ' ', ' '),
{
    reveal_strlit("quecto");
    reveal_strlit("q");
    reveal_strlit("ronto");
    reveal_strlit("r");
    reveal_strlit("yocto");
    reveal_strlit("y");
    reveal_strlit("zepto");
    reveal_strlit("z");
    reveal_strlit("atto");
    reveal_strlit("a");
    reveal_strlit("femto");
    reveal_strlit("f");
    reveal_strlit("pico");
    reveal_strlit("p");
    reveal_strlit("nano");
    reveal_strlit("n");
    reveal_strlit("micro");
    reveal_strlit("µ");
    reveal_strlit("milli");
    reveal_strlit("m");
    reveal_strlit("centi");
    reveal_strlit("c");
    reveal_strlit("deci");
    reveal_strlit("d");
    reveal_strlit("deca");
    reveal_strlit("da");
    reveal_strlit("hecto");
    reveal_strlit("h");
    reveal_strlit("kilo");
    reveal_strlit("k");
    reveal_strlit("mega");
    reveal_strlit("M");
    reveal_strlit("giga");
    reveal_strlit("G");
    reveal_strlit("tera");
    reveal_strlit("T");
    reveal_strlit("peta");
    reveal_strlit("P");
    reveal_strlit("exa");
    reveal_strlit("E");
    reveal_strlit("zetta");
    reveal_strlit("Z");
    reveal_strlit("yotta");
    reveal_strlit("Y");
    reveal_strlit("ronna");
    reveal_strlit("R");
    reveal_strlit("quetta");
    reveal_strlit("Q");
    reveal_strlit("kibi");
    reveal_strlit("Ki");
    reveal_strlit("mebi");
    reveal_strlit("Mi");
    reveal_strlit("gibi");
    reveal_strlit("Gi");
    reveal_strlit("tebi");
    reveal_strlit("Ti");
    reveal_strlit("pebi");
    reveal_strlit("Pi");
    reveal_strlit("exbi");
    reveal_strlit("Ei");
    reveal_strlit("zebi");
    reveal_strlit("Zi");
    reveal_strlit("yobi");
    reveal_strlit("Yi");
}

/// Every spelling in the table is non-empty, and no entry carries the
/// no-prefix value.
pub proof fn lemma_table_entries_are_proper()
    ensures
        prefix_table().len() == PREFIX_COUNT,
        forall|i: int|
            0 <= i < prefix_table().len() ==> {
                let entry = #[trigger] prefix_table()[i];
                &&& entry.long.len() > 0
                &&& entry.short.len() > 0
                &&& entry.prefix != Prefix::none()
            },
{
    lemma_table_spelled_out();
}

/// No spelling occurs twice in the table: a spelling determines its entry and
/// its form.
pub proof fn lemma_table_spellings_are_distinct()
    ensures
        forall|i: int, first: PrefixForm, j: int, second: PrefixForm|
            0 <= i < prefix_table().len() && 0 <= j < prefix_table().len() && (
            #[trigger] prefix_table()[i].spelling(first)) == (#[trigger] prefix_table()[j].spelling(
                second,
            )) ==> i == j && first == second,
{
    lemma_table_spelled_out();
}

} // verus!
