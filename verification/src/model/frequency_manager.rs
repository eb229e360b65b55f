//! The frequency table and the operating point derived from it.

use std::collections::HashMap;
use vstd::prelude::*;

verus! {

broadcast use vstd::std_specs::hash::group_hash_axioms;

/// The value stored under `key`, or zero when the map has no such key.
pub open spec fn lookup_or_zero(m: Map<i64, i64>, key: i64) -> i64 {
    if m.contains_key(key) {
        m[key]
    } else {
        0
    }
}

/// Every entry is smaller than all entries after it: ascending without duplicates.
pub open spec fn strictly_ascending(s: Seq<i64>) -> bool {
    forall|i: int, j: int| 0 <= i < j < s.len() ==> s[i] < s[j]
}

/// `idx` pulled into `0..len`: negative indices become 0, indices past the
/// end become the last one. For an empty table the result is 0.
pub open spec fn clamp_index(len: nat, idx: int) -> int {
    if idx < 0 || len == 0 {
        0
    } else if idx >= len {
        len - 1
    } else {
        idx
    }
}

/// The table entry at the clamped index, or zero for an empty table.
pub open spec fn entry_at(s: Seq<i64>, idx: int) -> i64 {
    if s.len() == 0 {
        0
    } else {
        s[clamp_index(s.len(), idx)]
    }
}

/// `k` is the first position of `s` that holds `f`.
pub open spec fn is_first_equal(s: Seq<i64>, f: i64, k: int) -> bool {
    &&& 0 <= k < s.len()
    &&& s[k] == f
    &&& forall|j: int| 0 <= j < k ==> s[j] != f
}

/// The first position that holds `f`, or zero when no entry equals `f`.
pub open spec fn index_of_entry(s: Seq<i64>, f: i64) -> int {
    if exists|k: int| is_first_equal(s, f, k) {
        choose|k: int| is_first_equal(s, f, k)
    } else {
        0
    }
}

/// `k` is the first position of `s` whose entry is at least `f`.
pub open spec fn is_first_at_least(s: Seq<i64>, f: i64, k: int) -> bool {
    &&& 0 <= k < s.len()
    &&& s[k] >= f
    &&& forall|j: int| 0 <= j < k ==> s[j] < f
}

/// `k` is the last position of `s` whose entry is at most `f`.
pub open spec fn is_last_at_most(s: Seq<i64>, f: i64, k: int) -> bool {
    &&& 0 <= k < s.len()
    &&& s[k] <= f
    &&& forall|j: int| k < j < s.len() ==> s[j] > f
}

/// The first entry that is at least `f`. Without such an entry, or for a
/// request that is not positive, the last entry; zero for an empty table.
pub open spec fn entry_at_least(s: Seq<i64>, f: i64) -> i64 {
    if s.len() == 0 {
        0
    } else if f > 0 && exists|k: int| is_first_at_least(s, f, k) {
        s[choose|k: int| is_first_at_least(s, f, k)]
    } else {
        s.last()
    }
}

/// The last entry that is at most `f`. Without such an entry, or for a
/// request that is not positive, the first entry; zero for an empty table.
pub open spec fn entry_at_most(s: Seq<i64>, f: i64) -> i64 {
    if s.len() == 0 {
        0
    } else if f > 0 && exists|k: int| is_last_at_most(s, f, k) {
        s[choose|k: int| is_last_at_most(s, f, k)]
    } else {
        s.first()
    }
}

/// Absolute distance between two frequencies.
pub open spec fn distance(a: i64, b: i64) -> int {
    if a >= b {
        a - b
    } else {
        b - a
    }
}

/// `k` is the first position of `s` whose entry lies nearest to `target`.
pub open spec fn is_first_nearest(s: Seq<i64>, target: i64, k: int) -> bool {
    &&& 0 <= k < s.len()
    &&& forall|j: int| 0 <= j < s.len() ==> distance(target, s[k]) <= distance(target, s[j])
    &&& forall|j: int| 0 <= j < k ==> distance(target, s[k]) < distance(target, s[j])
}

/// The entry of `s` nearest to `target`, the earliest one among equally near
/// entries; `target` itself when `s` is empty.
pub open spec fn nearest_entry(s: Seq<i64>, target: i64) -> i64 {
    if s.len() == 0 {
        target
    } else {
        s[choose|k: int| is_first_nearest(s, target, k)]
    }
}

/// Only one position can be the first that holds `f`.
pub proof fn lemma_first_equal_unique(s: Seq<i64>, f: i64, k: int)
    requires
        is_first_equal(s, f, k),
    ensures
        index_of_entry(s, f) == k,
{
    let c = choose|c: int| is_first_equal(s, f, c);
    assert(is_first_equal(s, f, c));
    if c < k {
        assert(s[c] != f);
    } else if k < c {
        assert(s[k] != f);
    }
}

/// Only one position can be the first whose entry is at least `f`.
pub proof fn lemma_first_at_least_unique(s: Seq<i64>, f: i64, k: int)
    requires
        is_first_at_least(s, f, k),
    ensures
        (choose|c: int| is_first_at_least(s, f, c)) == k,
{
    let c = choose|c: int| is_first_at_least(s, f, c);
    assert(is_first_at_least(s, f, c));
    if c < k {
        assert(s[c] < f);
    } else if k < c {
        assert(s[k] < f);
    }
}

/// Only one position can be the last whose entry is at most `f`.
pub proof fn lemma_last_at_most_unique(s: Seq<i64>, f: i64, k: int)
    requires
        is_last_at_most(s, f, k),
    ensures
        (choose|c: int| is_last_at_most(s, f, c)) == k,
{
    let c = choose|c: int| is_last_at_most(s, f, c);
    assert(is_last_at_most(s, f, c));
    if c < k {
        assert(s[k] > f);
    } else if k < c {
        assert(s[c] > f);
    }
}

/// Only one position can be the first nearest to `target`.
pub proof fn lemma_first_nearest_unique(s: Seq<i64>, target: i64, k: int)
    requires
        is_first_nearest(s, target, k),
    ensures
        (choose|c: int| is_first_nearest(s, target, c)) == k,
{
    let c = choose|c: int| is_first_nearest(s, target, c);
    assert(is_first_nearest(s, target, c));
    if c < k {
        assert(distance(target, s[k]) < distance(target, s[c]));
        assert(distance(target, s[c]) <= distance(target, s[k]));
    } else if k < c {
        assert(distance(target, s[c]) < distance(target, s[k]));
        assert(distance(target, s[k]) <= distance(target, s[c]));
    }
}

/// Absolute distance between two frequencies, computed without overflow.
fn abs_diff(a: i64, b: i64) -> (d: i128)
    ensures
        d == distance(a, b),
{
    if a >= b {
        a as i128 - b as i128
    } else {
        b as i128 - a as i128
    }
}

/// Frequency table of one GPU together with its current operating point.
#[derive(Clone, Debug)]
pub struct FrequencyManager {
    /// Supported frequencies in kHz.
    pub config_list: Vec<i64>,
    /// Voltage for each frequency.
    pub freq_volt: HashMap<i64, i64>,
    /// DRAM setting for each frequency.
    pub freq_dram: HashMap<i64, i64>,
    /// Default voltage for each frequency.
    pub def_volt: HashMap<i64, i64>,
    /// Current frequency in kHz.
    pub cur_freq: i64,
    /// Position of the current frequency in the table.
    pub cur_freq_idx: i64,
    /// Current voltage.
    pub cur_volt: i64,
    /// Whether the second driver generation is in use.
    pub gpuv2: bool,
    /// Frequencies that the second driver generation accepts.
    pub v2_supported_freqs: Vec<i64>,
}

impl FrequencyManager {
    /// An empty table at index 0 with zero frequency and voltage, first driver generation.
    pub fn new() -> (r: Self)
        ensures
            r.config_list@ == Seq::<i64>::empty(),
            r.v2_supported_freqs@ == Seq::<i64>::empty(),
            r.freq_volt@ == Map::<i64, i64>::empty(),
            r.freq_dram@ == Map::<i64, i64>::empty(),
            r.def_volt@ == Map::<i64, i64>::empty(),
            r.cur_freq == 0,
            r.cur_freq_idx == 0,
            r.cur_volt == 0,
            !r.gpuv2,
    {
        FrequencyManager {
            config_list: Vec::new(),
            freq_volt: HashMap::new(),
            freq_dram: HashMap::new(),
            def_volt: HashMap::new(),
            cur_freq: 0,
            cur_freq_idx: 0,
            cur_volt: 0,
            gpuv2: false,
            v2_supported_freqs: Vec::new(),
        }
    }

    /// The table can be governed: it is not empty, ascending without
    /// duplicates, short enough for every position to fit an `i64`, and the
    /// current index lies inside it.
    pub open spec fn well_formed(&self) -> bool {
        &&& 0 < self.config_list@.len() <= i64::MAX
        &&& strictly_ascending(self.config_list@)
        &&& 0 <= self.cur_freq_idx < self.config_list@.len()
    }

    /// Tells whether the table can be governed.
    pub fn is_well_formed(&self) -> (r: bool)
        ensures
            r == self.well_formed(),
    {
        let n = self.config_list.len();
        if n == 0 || n as u64 > i64::MAX as u64 {
            return false;
        }
        if self.cur_freq_idx < 0 || self.cur_freq_idx as u64 >= n as u64 {
            return false;
        }
        let mut i: usize = 1;
        while i < n
            invariant
                n == self.config_list@.len(),
                1 <= i <= n,
                forall|a: int, b: int|
                    0 <= a < b < i ==> self.config_list@[a] < self.config_list@[b],
            decreases n - i,
        {
            if self.config_list[i - 1] >= self.config_list[i] {
                return false;
            }
            proof {
                assert forall|a: int, b: int| 0 <= a < b < i + 1 implies self.config_list@[a]
                    < self.config_list@[b] by {
                    if b == i && a < i - 1 {
                        assert(self.config_list@[a] < self.config_list@[i - 1]);
                    }
                }
            }
            i += 1;
        }
        true
    }

    /// Voltage for `freq`, zero when the table has none.
    pub fn get_volt(&self, freq: i64) -> (r: i64)
        ensures
            r == lookup_or_zero(self.freq_volt@, freq),
    {
        match self.freq_volt.get(&freq) {
            Some(v) => *v,
            None => 0,
        }
    }

    /// `id` clamped into the table: negative becomes 0, past the end becomes
    /// the last index.
    pub fn unify_id(&self, id: i64) -> (r: i64)
        ensures
            r == clamp_index(self.config_list@.len(), id as int),
    {
        let len = self.config_list.len();
        if id < 0 || len == 0 {
            0
        } else if id as u64 >= len as u64 {
            (len - 1) as i64
        } else {
            id
        }
    }

    /// The frequency at `idx` after clamping; zero for an empty table.
    pub fn get_freq_by_index(&self, idx: i64) -> (r: i64)
        ensures
            r == entry_at(self.config_list@, idx as int),
    {
        if self.config_list.len() == 0 {
            return 0;
        }
        let unified = self.unify_id(idx);
        self.config_list[unified as usize]
    }

    /// The first entry that is at least `freq`. Saturates at the last entry:
    /// that is the answer when no entry is large enough and when `freq` is
    /// not positive. Zero for an empty table.
    pub fn read_freq_ge(&self, freq: i64) -> (r: i64)
        ensures
            r == entry_at_least(self.config_list@, freq),
    {
        let n = self.config_list.len();
        if n == 0 {
            return 0;
        }
        if freq <= 0 {
            return self.config_list[n - 1];
        }
        let mut i: usize = 0;
        while i < n
            invariant
                n == self.config_list@.len(),
                i <= n,
                freq > 0,
                forall|j: int| 0 <= j < i ==> self.config_list@[j] < freq,
            decreases n - i,
        {
            let cfreq = self.config_list[i];
            if cfreq >= freq {
                proof {
                    lemma_first_at_least_unique(self.config_list@, freq, i as int);
                }
                return cfreq;
            }
            i += 1;
        }
        self.config_list[n - 1]
    }

    /// The last entry that is at most `freq`. Saturates at the first entry:
    /// that is the answer when no entry is small enough and when `freq` is
    /// not positive. Zero for an empty table.
    pub fn read_freq_le(&self, freq: i64) -> (r: i64)
        ensures
            r == entry_at_most(self.config_list@, freq),
    {
        let n = self.config_list.len();
        if n == 0 {
            return 0;
        }
        if freq <= 0 {
            return self.config_list[0];
        }
        let mut i: usize = n;
        while i > 0
            invariant
                n == self.config_list@.len(),
                i <= n,
                freq > 0,
                forall|j: int| i <= j < n ==> self.config_list@[j] > freq,
            decreases i,
        {
            i -= 1;
            let cfreq = self.config_list[i];
            if cfreq <= freq {
                proof {
                    assert(is_last_at_most(self.config_list@, freq, i as int));
                    lemma_last_at_most_unique(self.config_list@, freq, i as int);
                }
                return cfreq;
            }
        }
        self.config_list[0]
    }

    /// The first position that holds `freq`, or zero when the table does not
    /// hold it. Stated for every table whose positions fit the result type.
    pub fn read_freq_index(&self, freq: i64) -> (r: i64)
        ensures
            self.config_list@.len() <= i64::MAX ==> r == index_of_entry(self.config_list@, freq),
            0 <= r,
    {
        let n = self.config_list.len();
        let mut i: usize = 0;
        let mut pos: i64 = 0;
        while i < n && pos < i64::MAX
            invariant
                n == self.config_list@.len(),
                i <= n,
                0 <= pos,
                pos == i,
                forall|j: int| 0 <= j < i ==> self.config_list@[j] != freq,
            decreases n - i,
        {
            if self.config_list[i] == freq {
                proof {
                    lemma_first_equal_unique(self.config_list@, freq, i as int);
                }
                return pos;
            }
            i += 1;
            pos += 1;
        }
        0
    }

    /// The last entry, zero for an empty table.
    pub fn get_max_freq(&self) -> (r: i64)
        ensures
            r == (if self.config_list@.len() == 0 {
                0
            } else {
                self.config_list@.last()
            }),
    {
        let n = self.config_list.len();
        if n == 0 {
            0
        } else {
            self.config_list[n - 1]
        }
    }

    /// The first entry, zero for an empty table.
    pub fn get_min_freq(&self) -> (r: i64)
        ensures
            r == (if self.config_list@.len() == 0 {
                0
            } else {
                self.config_list@.first()
            }),
    {
        if self.config_list.len() == 0 {
            0
        } else {
            self.config_list[0]
        }
    }

    /// The entry at half the table's length, zero for an empty table.
    pub fn get_middle_freq(&self) -> (r: i64)
        ensures
            r == (if self.config_list@.len() == 0 {
                0
            } else {
                self.config_list@[self.config_list@.len() as int / 2]
            }),
    {
        let n = self.config_list.len();
        if n == 0 {
            return 0;
        }
        self.config_list[n / 2]
    }

    /// The entry before the last one; with fewer than two entries, the same
    /// as the maximum.
    pub fn get_second_highest_freq(&self) -> (r: i64)
        ensures
            r == (if self.config_list@.len() == 0 {
                0
            } else if self.config_list@.len() == 1 {
                self.config_list@[0]
            } else {
                self.config_list@[self.config_list@.len() - 2]
            }),
    {
        let n = self.config_list.len();
        if n < 2 {
            return self.get_max_freq();
        }
        self.config_list[n - 2]
    }

    /// The second entry; with fewer than two entries, the same as the minimum.
    pub fn get_second_lowest_freq(&self) -> (r: i64)
        ensures
            r == (if self.config_list@.len() == 0 {
                0
            } else if self.config_list@.len() == 1 {
                self.config_list@[0]
            } else {
                self.config_list@[1]
            }),
    {
        if self.config_list.len() < 2 {
            return self.get_min_freq();
        }
        self.config_list[1]
    }

    /// The supported frequency nearest to `target_freq`; of two equally near
    /// ones the earlier in the list. With no supported frequencies recorded,
    /// `target_freq` unchanged.
    pub fn get_closest_v2_supported_freq(&self, target_freq: i64) -> (r: i64)
        ensures
            r == nearest_entry(self.v2_supported_freqs@, target_freq),
    {
        let n = self.v2_supported_freqs.len();
        if n == 0 {
            return target_freq;
        }
        let mut best: usize = 0;
        let mut min_diff: i128 = abs_diff(target_freq, self.v2_supported_freqs[0]);
        let mut i: usize = 1;
        while i < n
            invariant
                n == self.v2_supported_freqs@.len(),
                1 <= i <= n,
                best < i,
                min_diff == distance(target_freq, self.v2_supported_freqs@[best as int]),
                forall|j: int|
                    0 <= j < i ==> min_diff <= distance(target_freq, self.v2_supported_freqs@[j]),
                forall|j: int|
                    0 <= j < best ==> min_diff < distance(target_freq, self.v2_supported_freqs@[j]),
            decreases n - i,
        {
            let diff = abs_diff(target_freq, self.v2_supported_freqs[i]);
            if diff < min_diff {
                min_diff = diff;
                best = i;
            }
            i += 1;
        }
        proof {
            lemma_first_nearest_unique(self.v2_supported_freqs@, target_freq, best as int);
        }
        self.v2_supported_freqs[best]
    }

    /// The frequency that is presented to the driver: the supported frequency
    /// nearest to the current one under the second driver generation, the
    /// current frequency itself under the first.
    pub open spec fn frequency_in_use(&self) -> i64 {
        if self.gpuv2 {
            nearest_entry(self.v2_supported_freqs@, self.cur_freq)
        } else {
            self.cur_freq
        }
    }

    /// The voltage that belongs to the frequency in use: the entry of the
    /// voltage table, and where that is zero or missing, the entry of the
    /// default-voltage table if it is positive, else zero.
    pub open spec fn resolved_voltage(&self) -> i64 {
        let f = self.frequency_in_use();
        let v = lookup_or_zero(self.freq_volt@, f);
        let d = lookup_or_zero(self.def_volt@, f);
        if v != 0 {
            v
        } else if d > 0 {
            d
        } else {
            0
        }
    }

    /// The frequency that is presented to the driver.
    pub fn freq_to_use(&self) -> (r: i64)
        ensures
            r == self.frequency_in_use(),
    {
        if self.gpuv2 {
            self.get_closest_v2_supported_freq(self.cur_freq)
        } else {
            self.cur_freq
        }
    }

    /// Resolves the voltage for the frequency in use, stores it as the
    /// current voltage and returns it. Nothing else changes.
    pub fn gen_cur_volt(&mut self) -> (r: i64)
        ensures
            r == old(self).resolved_voltage(),
            *final(self) == (FrequencyManager { cur_volt: r, ..*old(self) }),
    {
        let freq_to_use = self.freq_to_use();
        self.cur_volt = self.get_volt(freq_to_use);
        if self.cur_volt == 0 {
            let def_volt = self.read_def_volt(freq_to_use);
            if def_volt > 0 {
                self.cur_volt = def_volt;
            }
        }
        self.cur_volt
    }

    /// Replaces the list of supported frequencies.
    pub fn set_config_list(&mut self, config_list: Vec<i64>)
        ensures
            *final(self) == (FrequencyManager { config_list, ..*old(self) }),
    {
        self.config_list = config_list;
    }

    /// A copy of the list of supported frequencies.
    pub fn get_config_list(&self) -> (r: Vec<i64>)
        ensures
            r@ == self.config_list@,
    {
        self.config_list.clone()
    }

    /// Replaces the voltage table.
    pub fn replace_freq_volt_tab(&mut self, tab: HashMap<i64, i64>)
        ensures
            *final(self) == (FrequencyManager { freq_volt: tab, ..*old(self) }),
    {
        self.freq_volt = tab;
    }

    /// Replaces the table of DRAM settings.
    pub fn replace_freq_dram_tab(&mut self, tab: HashMap<i64, i64>)
        ensures
            *final(self) == (FrequencyManager { freq_dram: tab, ..*old(self) }),
    {
        self.freq_dram = tab;
    }

    /// Replaces the default-voltage table.
    pub fn replace_def_volt_tab(&mut self, tab: HashMap<i64, i64>)
        ensures
            *final(self) == (FrequencyManager { def_volt: tab, ..*old(self) }),
    {
        self.def_volt = tab;
    }

    /// Voltage for `freq`, zero when the table has none.
    pub fn read_freq_volt(&self, freq: i64) -> (r: i64)
        ensures
            r == lookup_or_zero(self.freq_volt@, freq),
    {
        match self.freq_volt.get(&freq) {
            Some(v) => *v,
            None => 0,
        }
    }

    /// DRAM setting for `freq`, zero when the table has none.
    pub fn read_freq_dram(&self, freq: i64) -> (r: i64)
        ensures
            r == lookup_or_zero(self.freq_dram@, freq),
    {
        match self.freq_dram.get(&freq) {
            Some(v) => *v,
            None => 0,
        }
    }

    /// Default voltage for `freq`, zero when the table has none.
    pub fn read_def_volt(&self, freq: i64) -> (r: i64)
        ensures
            r == lookup_or_zero(self.def_volt@, freq),
    {
        match self.def_volt.get(&freq) {
            Some(v) => *v,
            None => 0,
        }
    }
}

impl Default for FrequencyManager {
    fn default() -> (r: Self)
        ensures
            r.config_list@ == Seq::<i64>::empty(),
            r.v2_supported_freqs@ == Seq::<i64>::empty(),
            r.freq_volt@ == Map::<i64, i64>::empty(),
            r.freq_dram@ == Map::<i64, i64>::empty(),
            r.def_volt@ == Map::<i64, i64>::empty(),
            r.cur_freq == 0,
            r.cur_freq_idx == 0,
            r.cur_volt == 0,
            !r.gpuv2,
    {
        FrequencyManager::new()
    }
}

/// An ascending table holds no entry twice.
pub proof fn lemma_ascending_has_no_duplicates(s: Seq<i64>)
    requires
        strictly_ascending(s),
    ensures
        s.no_duplicates(),
{
    assert forall|i: int, j: int| 0 <= i < s.len() && 0 <= j < s.len() && i != j implies s[i]
        != s[j] by {
        if i < j {
            assert(s[i] < s[j]);
        } else {
            assert(s[j] < s[i]);
        }
    }
}

/// Looking up the position of the entry at a valid index gives that index
/// back, in every table that holds no entry twice.
pub proof fn lemma_index_round_trip(s: Seq<i64>, i: int)
    requires
        s.no_duplicates(),
        0 <= i < s.len(),
    ensures
        index_of_entry(s, entry_at(s, i)) == i,
{
    assert(is_first_equal(s, s[i], i));
    lemma_first_equal_unique(s, s[i], i);
}

/// In an ascending table the entry found for a positive request `f` that
/// some entry reaches is the smallest entry that is at least `f`.
pub proof fn lemma_entry_at_least_is_smallest(s: Seq<i64>, f: i64, k: int)
    requires
        strictly_ascending(s),
        f > 0,
        0 <= k < s.len(),
        s[k] >= f,
    ensures
        f <= entry_at_least(s, f) <= s[k],
        s.contains(entry_at_least(s, f)),
{
    let c = first_at_least_upto(s, f, k);
    lemma_first_at_least_unique(s, f, c);
    assert(s[c] == entry_at_least(s, f));
}

/// In an ascending table the entry found for a positive request `f` that
/// is no smaller than some entry is the largest entry that is at most `f`.
pub proof fn lemma_entry_at_most_is_largest(s: Seq<i64>, f: i64, k: int)
    requires
        strictly_ascending(s),
        f > 0,
        0 <= k < s.len(),
        s[k] <= f,
    ensures
        s[k] <= entry_at_most(s, f) <= f,
        s.contains(entry_at_most(s, f)),
{
    let c = last_at_most_from(s, f, k);
    lemma_last_at_most_unique(s, f, c);
    assert(s[c] == entry_at_most(s, f));
}

/// A request that is not positive, or that no entry reaches, saturates at
/// the last entry; one that is not positive, or below every entry, at the
/// first.
pub proof fn lemma_lookups_saturate(s: Seq<i64>, f: i64)
    requires
        s.len() > 0,
    ensures
        f <= 0 || (forall|j: int| 0 <= j < s.len() ==> s[j] < f) ==> entry_at_least(s, f)
            == s.last(),
        f <= 0 || (forall|j: int| 0 <= j < s.len() ==> s[j] > f) ==> entry_at_most(s, f)
            == s.first(),
{
}

/// The nearest entry is an entry of the list, and no entry lies nearer to the target.
pub proof fn lemma_nearest_entry_is_nearest(s: Seq<i64>, target: i64, j: int)
    requires
        0 <= j < s.len(),
    ensures
        s.contains(nearest_entry(s, target)),
        distance(target, nearest_entry(s, target)) <= distance(target, s[j]),
{
    let c = first_nearest_upto(s, target, s.len() as int);
    lemma_first_nearest_unique(s, target, c);
    assert(s[c] == nearest_entry(s, target));
}

/// Finds the first position up to `k` whose entry is at least `f`.
proof fn first_at_least_upto(s: Seq<i64>, f: i64, k: int) -> (c: int)
    requires
        0 <= k < s.len(),
        s[k] >= f,
    ensures
        is_first_at_least(s, f, c),
        c <= k,
    decreases k,
{
    if exists|j: int| 0 <= j < k && s[j] >= f {
        let j = choose|j: int| 0 <= j < k && s[j] >= f;
        first_at_least_upto(s, f, j)
    } else {
        k
    }
}

/// Finds the last position from `k` on whose entry is at most `f`.
proof fn last_at_most_from(s: Seq<i64>, f: i64, k: int) -> (c: int)
    requires
        0 <= k < s.len(),
        s[k] <= f,
    ensures
        is_last_at_most(s, f, c),
        k <= c,
    decreases s.len() - k,
{
    if exists|j: int| k < j < s.len() && s[j] <= f {
        let j = choose|j: int| k < j < s.len() && s[j] <= f;
        last_at_most_from(s, f, j)
    } else {
        k
    }
}

/// Finds the first nearest position among the first `n` entries.
proof fn first_nearest_upto(s: Seq<i64>, target: i64, n: int) -> (c: int)
    requires
        0 < n <= s.len(),
    ensures
        0 <= c < n,
        forall|j: int| 0 <= j < n ==> distance(target, s[c]) <= distance(target, s[j]),
        forall|j: int| 0 <= j < c ==> distance(target, s[c]) < distance(target, s[j]),
    decreases n,
{
    if n == 1 {
        0
    } else {
        let c = first_nearest_upto(s, target, n - 1);
        if distance(target, s[n - 1]) < distance(target, s[c]) {
            n - 1
        } else {
            c
        }
    }
}

} // verus!
