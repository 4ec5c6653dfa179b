//! The packet counters of a network device, and the differences between two
//! readings of them.

use vstd::prelude::*;

use crate::text::{chars_of, find, find_from, nth_word, parse_u64, parse_u64_spec, word_at};

verus! {

/// Packet counts of a network device.
#[derive(Clone, Copy, Debug)]
pub struct NetStats {
    pub tx_packets: u64,
    pub rx_packets: u64,
}

impl Default for NetStats {
    fn default() -> (s: Self)
        ensures
            s.tx_packets == 0,
            s.rx_packets == 0,
    {
        NetStats { tx_packets: 0, rx_packets: 0 }
    }
}

/// What a counter's word reads as: its number, or 0 when there is no such
/// word or it is no `u64`.
pub open spec fn stat_value(w: Option<Seq<char>>) -> u64 {
    match w {
        Some(t) => match parse_u64_spec(t) {
            Some(v) => v,
            None => 0,
        },
        None => 0,
    }
}

/// Read a counter's word.
pub fn read_stat(s: Option<Vec<char>>) -> (r: u64)
    ensures
        r == stat_value(match s {
            Some(t) => Some(t@),
            None => None,
        }),
{
    match s {
        Some(t) => match parse_u64(&t) {
            Some(v) => v,
            None => 0,
        },
        None => 0,
    }
}

/// The text of a line after the device name found at `p`, past one colon
/// if one follows the name.
pub open spec fn after_name(line: Seq<char>, p: int, nic: Seq<char>) -> Seq<char> {
    let after = line.subrange(p + nic.len(), line.len() as int);
    if after.len() > 0 && after[0] == ':' {
        after.drop_first()
    } else {
        after
    }
}

/// The counters a line of the kernel's device table gives for `nic`: when
/// the name occurs in the line, the packets received are the second word
/// after it and the packets sent the tenth.
pub open spec fn line_stats(line: Seq<char>, nic: Seq<char>) -> Option<NetStats> {
    match find_from(line, nic, 0) {
        Some(p) => {
            let rest = after_name(line, p, nic);
            Some(
                NetStats {
                    tx_packets: stat_value(nth_word(rest, 9)),
                    rx_packets: stat_value(nth_word(rest, 1)),
                },
            )
        },
        None => None,
    }
}

/// The counters of the first line that names `nic`; zero when none does.
pub open spec fn table_stats(lines: Seq<Seq<char>>, nic: Seq<char>) -> NetStats
    decreases lines.len(),
{
    if lines.len() == 0 {
        NetStats { tx_packets: 0, rx_packets: 0 }
    } else {
        match line_stats(lines[0], nic) {
            Some(s) => s,
            None => table_stats(lines.drop_first(), nic),
        }
    }
}

/// The characters of each line.
pub open spec fn lines_view(lines: Seq<String>) -> Seq<Seq<char>> {
    lines.map_values(|l: String| l@)
}

impl NetStats {
    /// The counters one line of the device table gives for `nic`, if the
    /// line names it.
    pub fn from_line(line: &Vec<char>, nic: &Vec<char>) -> (r: Option<NetStats>)
        ensures
            r == line_stats(line@, nic@),
    {
        match find(line, nic) {
            Some(p) => {
                let n = line.len();
                let mut k: usize = p + nic.len();
                if k < n && line[k] == ':' {
                    k = k + 1;
                }
                let ghost start = k;
                let mut rest: Vec<char> = Vec::new();
                while k < n
                    invariant
                        start <= k <= n,
                        n == line@.len(),
                        rest@ == line@.subrange(start as int, k as int),
                    decreases n - k,
                {
                    rest.push(line[k]);
                    k = k + 1;
                    assert(rest@ =~= line@.subrange(start as int, k as int));
                }
                assert(rest@ =~= after_name(line@, p as int, nic@));
                let rx_packets = read_stat(word_at(&rest, 1));  // 1th
                let tx_packets = read_stat(word_at(&rest, 9));  // 9th
                Some(NetStats { tx_packets, rx_packets })
            },
            None => None,
        }
    }

    /// The counters the kernel's device table gives for `nic`, from the
    /// table's lines.
    pub fn from_table(lines: &Vec<String>, nic: &str) -> (r: NetStats)
        ensures
            r == table_stats(lines_view(lines@), nic@),
    {
        let nic_chars = chars_of(nic);
        let n = lines.len();
        let mut i: usize = 0;
        assert(lines_view(lines@).skip(0) =~= lines_view(lines@));
        while i < n
            invariant
                i <= n,
                n == lines@.len(),
                nic_chars@ == nic@,
                table_stats(lines_view(lines@), nic@) == table_stats(
                    lines_view(lines@).skip(i as int),
                    nic@,
                ),
            decreases n - i,
        {
            let line = chars_of(lines[i].as_str());
            let ghost rest = lines_view(lines@).skip(i as int);
            assert(rest[0] == line@);
            assert(rest.drop_first() =~= lines_view(lines@).skip(i + 1));
            if let Some(stats) = NetStats::from_line(&line, &nic_chars) {
                return stats;
            }
            i = i + 1;
        }
        assert(lines_view(lines@).skip(n as int) =~= Seq::<Seq<char>>::empty());
        NetStats { tx_packets: 0, rx_packets: 0 }
    }
}

/// Whether no counter of `current` is below that of `previous`.
pub open spec fn not_below(current: NetStats, previous: NetStats) -> bool {
    current.tx_packets >= previous.tx_packets && current.rx_packets >= previous.rx_packets
}

/// How far each counter has grown from `previous` to `current`.
pub open spec fn growth(current: NetStats, previous: NetStats) -> NetStats {
    NetStats {
        tx_packets: (current.tx_packets - previous.tx_packets) as u64,
        rx_packets: (current.rx_packets - previous.rx_packets) as u64,
    }
}

/// A network device and its last reading.
pub struct NetState {
    net_interface: String,
    stats: NetStats,
}

impl NetState {
    /// The device's name.
    pub closed spec fn interface(&self) -> Seq<char> {
        self.net_interface@
    }

    /// The last reading of the device's counters.
    pub closed spec fn last(&self) -> NetStats {
        self.stats
    }

    /// Watch the device `net_interface`, whose counters read `stats` now.
    pub fn new(net_interface: String, stats: NetStats) -> (s: Self)
        ensures
            s.interface() == net_interface@,
            s.last() == stats,
    {
        NetState { net_interface, stats }
    }

    /// The device's name.
    pub fn net_interface(&self) -> (r: &str)
        ensures
            r@ == self.interface(),
    {
        self.net_interface.as_str()
    }

    /// The last reading of the device's counters.
    pub fn stats(&self) -> (r: NetStats)
        ensures
            r == self.last(),
    {
        self.stats
    }

    /// Take a new reading `current` of the counters and return how far each
    /// has grown since the last one.
    pub fn poll(&mut self, current: NetStats) -> (d: NetStats)
        requires
            not_below(current, old(self).last()),
        ensures
            final(self).last() == current,
            final(self).interface() == old(self).interface(),
            d == growth(current, old(self).last()),
    {
        let mut stats = current;  // stats := current
        std::mem::swap(&mut self.stats, &mut stats);  // self.stats = current, stats := previous
        NetStats {
            tx_packets: self.stats.tx_packets - stats.tx_packets,  // current - previous
            rx_packets: self.stats.rx_packets - stats.rx_packets,  // current - previous
        }
    }
}

} // verus!
