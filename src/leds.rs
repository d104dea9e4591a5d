//! Logical LED state: the legacy array, the hotcue overlay, the extension
//! array and the two banked arrays, with the banked write rule.
use vstd::prelude::*;

verus! {

pub const LEGACY_LEN: usize = 32;
pub const HOTCUE_LEN: usize = 16;
pub const EXT_LEN: usize = 58;
pub const BANK80_LEN: usize = 51;
pub const BANK81_LEN: usize = 90;
/// Bank selector of the 51-slot array.
pub const BANK_80: u8 = 0x80;
/// Bank selector of the 90-slot array.
pub const BANK_81: u8 = 0x81;
/// First legacy slot under the hotcue overlay.
pub const HOTCUE_FIRST: usize = 9;
pub const LED_DIM: u8 = 0x00;
pub const LED_BRIGHT: u8 = 0x7F;
/// Level that the hotcue overlay starts with.
pub const HOTCUE_INITIAL: u8 = 0x05;

/// How LEDs are driven, chosen once when the engine is built.
#[derive(Clone, Copy, Debug, PartialEq, Eq, Structural)]
pub struct LedConfig {
    /// Darken everything at start and broadcast every candidate encoding.
    pub clear: bool,
    /// Drive every slot of every payload at full brightness.
    pub fill_all: bool,
    /// Light a single slot at start (under the active bank's addressing).
    pub single_index: Option<usize>,
    /// Stop after the start-up LED writes of `single_index`.
    pub once: bool,
    /// Enable the 90-slot extended bank.
    pub ext_enabled: bool,
    /// Active bank: `BANK_80`, `BANK_81`, or any other value for the legacy arrays.
    pub bank: u8,
    /// Only send payloads with this report identifier (`None`: every one).
    pub report_filter: Option<u8>,
    /// Walk a single lit slot over the legacy array.
    pub test_pattern: bool,
}

impl LedConfig {
    /// The device defaults: bank 0x80, every candidate payload sent.
    pub fn standard() -> (r: LedConfig)
        ensures
            r == (LedConfig {
                clear: false,
                fill_all: false,
                single_index: None,
                once: false,
                ext_enabled: false,
                bank: BANK_80,
                report_filter: None,
                test_pattern: false,
            }),
    {
        LedConfig {
            clear: false,
            fill_all: false,
            single_index: None,
            once: false,
            ext_enabled: false,
            bank: BANK_80,
            report_filter: None,
            test_pattern: false,
        }
    }
}

/// LED levels under each of the device's encodings.
#[derive(Clone, Debug)]
pub struct LedState {
    pub legacy: Vec<u8>,
    pub hotcue: Vec<u8>,
    pub ext: Vec<u8>,
    pub bank80: Vec<u8>,
    pub bank81: Vec<u8>,
}

/// Mathematical view of `LedState`.
pub struct LedView {
    pub legacy: Seq<u8>,
    pub hotcue: Seq<u8>,
    pub ext: Seq<u8>,
    pub bank80: Seq<u8>,
    pub bank81: Seq<u8>,
}

impl View for LedState {
    type V = LedView;

    open spec fn view(&self) -> LedView {
        LedView {
            legacy: self.legacy@,
            hotcue: self.hotcue@,
            ext: self.ext@,
            bank80: self.bank80@,
            bank81: self.bank81@,
        }
    }
}

impl LedView {
    pub open spec fn wf(self) -> bool {
        &&& self.legacy.len() == LEGACY_LEN
        &&& self.hotcue.len() == HOTCUE_LEN
        &&& self.ext.len() == EXT_LEN
        &&& self.bank80.len() == BANK80_LEN
        &&& self.bank81.len() == BANK81_LEN
    }

    /// Every slot of every array that a write or a clear reaches is zero.
    pub open spec fn all_dark(self) -> bool {
        &&& forall|i: int| 0 <= i < self.legacy.len() ==> self.legacy[i] == 0
        &&& forall|i: int| 0 <= i < self.ext.len() ==> self.ext[i] == 0
        &&& forall|i: int| 0 <= i < self.bank80.len() ==> self.bank80[i] == 0
        &&& forall|i: int| 0 <= i < self.bank81.len() ==> self.bank81[i] == 0
    }
}

/// The slot that writing `val` at `idx` under `bank` changes: the 51-slot bank,
/// the 90-slot bank, or (for any other bank) the legacy array then the
/// extension array; an index past the chosen arrays is dropped.
pub open spec fn led_write(v: LedView, bank: u8, idx: int, val: u8) -> LedView {
    if bank == BANK_80 {
        if 0 <= idx < BANK80_LEN {
            LedView { bank80: v.bank80.update(idx, val), ..v }
        } else {
            v
        }
    } else if bank == BANK_81 {
        if 0 <= idx < BANK81_LEN {
            LedView { bank81: v.bank81.update(idx, val), ..v }
        } else {
            v
        }
    } else if 0 <= idx < LEGACY_LEN {
        LedView { legacy: v.legacy.update(idx, val), ..v }
    } else if LEGACY_LEN <= idx < LEGACY_LEN + EXT_LEN {
        LedView { ext: v.ext.update(idx - LEGACY_LEN, val), ..v }
    } else {
        v
    }
}

/// The same levels with every reachable slot set to zero.
pub open spec fn led_cleared(v: LedView) -> LedView {
    LedView {
        legacy: Seq::new(LEGACY_LEN as nat, |i: int| 0u8),
        ext: Seq::new(EXT_LEN as nat, |i: int| 0u8),
        bank80: Seq::new(BANK80_LEN as nat, |i: int| 0u8),
        bank81: Seq::new(BANK81_LEN as nat, |i: int| 0u8),
        ..v
    }
}

pub fn filled(n: usize, val: u8) -> (r: Vec<u8>)
    ensures
        r@ == Seq::new(n as nat, |i: int| val),
{
    let mut r: Vec<u8> = Vec::new();
    let mut k: usize = 0;
    while k < n
        invariant
            k <= n,
            r@ == Seq::new(k as nat, |i: int| val),
        decreases n - k,
    {
        r.push(val);
        k = k + 1;
        assert(r@ =~= Seq::new(k as nat, |i: int| val));
    }
    r
}

impl LedState {
    /// All arrays dark but the hotcue overlay, which starts at `HOTCUE_INITIAL`.
    pub fn new() -> (r: LedState)
        ensures
            r@.wf(),
            r@ == led_cleared(r@),
            r@.hotcue == Seq::new(HOTCUE_LEN as nat, |i: int| HOTCUE_INITIAL),
    {
        let r = LedState {
            legacy: filled(LEGACY_LEN, 0),
            hotcue: filled(HOTCUE_LEN, HOTCUE_INITIAL),
            ext: filled(EXT_LEN, 0),
            bank80: filled(BANK80_LEN, 0),
            bank81: filled(BANK81_LEN, 0),
        };
        assert(r@ =~= led_cleared(r@));
        r
    }

    /// Writes one slot under the banked addressing rule (see `led_write`).
    pub fn set_led_idx(&mut self, bank: u8, idx: usize, val: u8)
        requires
            old(self)@.wf(),
        ensures
            final(self)@ == led_write(old(self)@, bank, idx as int, val),
            final(self)@.wf(),
    {
        if bank == BANK_80 {
            if idx < self.bank80.len() {
                self.bank80.set(idx, val);
            }
        } else if bank == BANK_81 {
            if idx < self.bank81.len() {
                self.bank81.set(idx, val);
            }
        } else if idx < self.legacy.len() {
            self.legacy.set(idx, val);
        } else if idx < LEGACY_LEN + EXT_LEN {
            self.ext.set(idx - LEGACY_LEN, val);
        }
    }

    /// Sets every reachable slot to zero; the hotcue overlay is kept.
    pub fn clear(&mut self)
        requires
            old(self)@.wf(),
        ensures
            final(self)@ == led_cleared(old(self)@),
            final(self)@.wf(),
            final(self)@.all_dark(),
    {
        self.legacy = filled(LEGACY_LEN, 0);
        self.ext = filled(EXT_LEN, 0);
        self.bank80 = filled(BANK80_LEN, 0);
        self.bank81 = filled(BANK81_LEN, 0);
    }
}

/// Report identifiers tried as feature reports when clearing: 33 bytes each.
pub const FEATURE_IDS_33: [u8; 5] = [0xD0, 0xD1, 0xD2, 0xD8, 0xD9];
/// Short feature reports tried when clearing.
pub const FEATURE_ID_9: u8 = 0xF0;
pub const FEATURE_ID_17: u8 = 0xF1;

pub open spec fn zeros(n: nat) -> Seq<u8> {
    Seq::new(n, |i: int| 0u8)
}

/// The legacy array as shown: hotcue overlay on slots 9..25 while hotcue mode is on.
pub open spec fn composed(v: LedView, hotcue_mode: bool) -> Seq<u8> {
    Seq::new(
        LEGACY_LEN as nat,
        |i: int|
            if hotcue_mode && HOTCUE_FIRST <= i < HOTCUE_FIRST + HOTCUE_LEN {
                v.hotcue[i - HOTCUE_FIRST]
            } else {
                v.legacy[i]
            },
    )
}

/// The level that overrides every data byte: 0 when clearing, full when filling.
pub open spec fn fill_level(cfg: LedConfig) -> Option<u8> {
    if cfg.clear {
        Some(0u8)
    } else if cfg.fill_all {
        Some(LED_BRIGHT)
    } else {
        None
    }
}

/// The report filter in force: clearing lifts it.
pub open spec fn filter_of(cfg: LedConfig) -> Option<u8> {
    if cfg.clear {
        None
    } else {
        cfg.report_filter
    }
}

pub open spec fn body(fill: Option<u8>, data: Seq<u8>) -> Seq<u8> {
    match fill {
        Some(x) => Seq::new(data.len(), |i: int| x),
        None => data,
    }
}

/// Data of the bank-0x80 payload: the 51-slot bank when active, else the shown legacy array padded.
pub open spec fn data80(v: LedView, hotcue_mode: bool, cfg: LedConfig) -> Seq<u8> {
    if cfg.bank == BANK_80 {
        v.bank80
    } else {
        composed(v, hotcue_mode) + zeros((BANK80_LEN - LEGACY_LEN) as nat)
    }
}

/// Data of the bank-0x81 payload: the 90-slot bank when active, else the shown
/// legacy array followed by the extension array (dark unless enabled).
pub open spec fn data81(v: LedView, hotcue_mode: bool, cfg: LedConfig) -> Seq<u8> {
    if cfg.bank == BANK_81 {
        v.bank81
    } else {
        composed(v, hotcue_mode) + (if cfg.ext_enabled {
            v.ext
        } else {
            zeros(EXT_LEN as nat)
        })
    }
}

pub open spec fn sends_bank81(cfg: LedConfig) -> bool {
    cfg.clear || (cfg.ext_enabled && (filter_of(cfg) is None || filter_of(cfg) == Some(BANK_81))) || filter_of(cfg) == Some(BANK_81)
}

/// The candidate output reports, in the order they are written: a bare 32-byte
/// payload and 33-byte payloads with report identifiers 0 and 1 (with no filter),
/// a 52-byte bank-0x80 payload (no filter, or filter 0x80) and a 91-byte
/// bank-0x81 payload (when clearing, extended bank enabled and allowed by the
/// filter, or filter 0x81).
pub open spec fn write_payloads(v: LedView, hotcue_mode: bool, cfg: LedConfig) -> Seq<Seq<u8>> {
    let fill = fill_level(cfg);
    let flt = filter_of(cfg);
    let shown = composed(v, hotcue_mode);
    let legacy_part = if flt is None {
        seq![body(fill, shown), seq![0u8] + body(fill, shown), seq![1u8] + body(fill, shown)]
    } else {
        Seq::empty()
    };
    let part80 = if flt is None || flt == Some(BANK_80) {
        seq![seq![BANK_80] + body(fill, data80(v, hotcue_mode, cfg))]
    } else {
        Seq::empty()
    };
    let part81 = if sends_bank81(cfg) {
        seq![seq![BANK_81] + body(fill, data81(v, hotcue_mode, cfg))]
    } else {
        Seq::empty()
    };
    legacy_part + part80 + part81
}

/// Zeroed feature reports tried only when clearing.
pub open spec fn feature_fallbacks(cfg: LedConfig) -> Seq<Seq<u8>> {
    if cfg.clear {
        seq![
            seq![0xD0u8] + zeros(32),
            seq![0xD1u8] + zeros(32),
            seq![0xD2u8] + zeros(32),
            seq![0xD8u8] + zeros(32),
            seq![0xD9u8] + zeros(32),
            seq![FEATURE_ID_9] + zeros(8),
            seq![FEATURE_ID_17] + zeros(16),
        ]
    } else {
        Seq::empty()
    }
}

/// Byte payloads to hand to the transport.
pub struct LedPlan {
    /// Each sent as an output report.
    pub writes: Vec<Vec<u8>>,
    /// Each sent as a feature report: the writes again, then the fallbacks.
    pub features: Vec<Vec<u8>>,
}

/// `v` holds exactly the byte sequences `w`.
pub open spec fn holds(v: Seq<Vec<u8>>, w: Seq<Seq<u8>>) -> bool {
    v.len() == w.len() && forall|i: int| 0 <= i < v.len() ==> (#[trigger] v[i])@ == w[i]
}

/// `header` (if any) followed by `data`, every data byte replaced by `fill` if given.
fn framed(header: Option<u8>, data: &Vec<u8>, fill: Option<u8>) -> (r: Vec<u8>)
    ensures
        r@ == (match header {
            Some(h) => seq![h],
            None => Seq::<u8>::empty(),
        }) + body(fill, data@),
{
    let mut r: Vec<u8> = Vec::new();
    let ghost head = match header {
        Some(h) => seq![h],
        None => Seq::<u8>::empty(),
    };
    if let Some(h) = header {
        r.push(h);
    }
    assert(r@ =~= head);
    let mut k: usize = 0;
    while k < data.len()
        invariant
            k <= data@.len(),
            r@ == head + body(fill, data@).take(k as int),
        decreases data@.len() - k,
    {
        let b = match fill {
            Some(x) => x,
            None => data[k],
        };
        r.push(b);
        k = k + 1;
        assert(r@ =~= head + body(fill, data@).take(k as int));
    }
    assert(body(fill, data@).take(data@.len() as int) =~= body(fill, data@));
    r
}

fn concat(a: &Vec<u8>, b: &Vec<u8>) -> (r: Vec<u8>)
    ensures
        r@ == a@ + b@,
{
    let mut r: Vec<u8> = Vec::new();
    let mut k: usize = 0;
    while k < a.len()
        invariant
            k <= a@.len(),
            r@ == a@.take(k as int),
        decreases a@.len() - k,
    {
        r.push(a[k]);
        k = k + 1;
        assert(r@ =~= a@.take(k as int));
    }
    let mut j: usize = 0;
    while j < b.len()
        invariant
            j <= b@.len(),
            r@ == a@ + b@.take(j as int),
        decreases b@.len() - j,
    {
        r.push(b[j]);
        j = j + 1;
        assert(r@ =~= a@ + b@.take(j as int));
    }
    assert(a@.take(a@.len() as int) =~= a@);
    assert(b@.take(b@.len() as int) =~= b@);
    r
}

impl LedState {
    /// The legacy array with the hotcue overlay applied when `hotcue_mode` is on.
    pub fn composed(&self, hotcue_mode: bool) -> (r: Vec<u8>)
        requires
            self@.wf(),
        ensures
            r@ == composed(self@, hotcue_mode),
    {
        let mut r: Vec<u8> = Vec::new();
        let mut i: usize = 0;
        while i < LEGACY_LEN
            invariant
                self@.wf(),
                i <= LEGACY_LEN,
                r@ == composed(self@, hotcue_mode).take(i as int),
            decreases LEGACY_LEN - i,
        {
            let v = if hotcue_mode && HOTCUE_FIRST <= i && i < HOTCUE_FIRST + HOTCUE_LEN {
                self.hotcue[i - HOTCUE_FIRST]
            } else {
                self.legacy[i]
            };
            r.push(v);
            i = i + 1;
            assert(r@ =~= composed(self@, hotcue_mode).take(i as int));
        }
        assert(composed(self@, hotcue_mode).take(LEGACY_LEN as int) =~= composed(self@, hotcue_mode));
        r
    }

    /// The same logical levels under every candidate wire encoding that `cfg`
    /// allows (see `write_payloads` and `feature_fallbacks`).
    pub fn plan(&self, hotcue_mode: bool, cfg: LedConfig) -> (r: LedPlan)
        requires
            self@.wf(),
        ensures
            holds(r.writes@, write_payloads(self@, hotcue_mode, cfg)),
            holds(r.features@, write_payloads(self@, hotcue_mode, cfg) + feature_fallbacks(cfg)),
    {
        let fill: Option<u8> = if cfg.clear {
            Some(0)
        } else if cfg.fill_all {
            Some(LED_BRIGHT)
        } else {
            None
        };
        let flt: Option<u8> = if cfg.clear {
            None
        } else {
            cfg.report_filter
        };
        let shown = self.composed(hotcue_mode);
        let mut writes: Vec<Vec<u8>> = Vec::new();
        let ghost w = write_payloads(self@, hotcue_mode, cfg);
        if flt.is_none() {
            writes.push(framed(None, &shown, fill));
            writes.push(framed(Some(0), &shown, fill));
            writes.push(framed(Some(1), &shown, fill));
        }
        if flt.is_none() || flt == Some(BANK_80) {
            let d80 = if cfg.bank == BANK_80 {
                concat(&self.bank80, &Vec::new())
            } else {
                concat(&shown, &filled(BANK80_LEN - LEGACY_LEN, 0))
            };
            writes.push(framed(Some(BANK_80), &d80, fill));
        }
        let want81 = cfg.clear || (cfg.ext_enabled && (flt.is_none() || flt == Some(BANK_81))) || flt == Some(BANK_81);
        if want81 {
            let d81 = if cfg.bank == BANK_81 {
                concat(&self.bank81, &Vec::new())
            } else if cfg.ext_enabled {
                concat(&shown, &self.ext)
            } else {
                concat(&shown, &filled(EXT_LEN, 0))
            };
            writes.push(framed(Some(BANK_81), &d81, fill));
        }
        proof {
            assert(self@.bank80 + Seq::<u8>::empty() =~= self@.bank80);
            assert(self@.bank81 + Seq::<u8>::empty() =~= self@.bank81);
            assert(seq![0u8] + body(fill, composed(self@, hotcue_mode)) =~= seq![0u8] + body(fill, composed(self@, hotcue_mode)));
            assert(Seq::<u8>::empty() + body(fill, composed(self@, hotcue_mode)) =~= body(fill, composed(self@, hotcue_mode)));
            assert(holds(writes@, w));
        }
        let mut features: Vec<Vec<u8>> = Vec::new();
        let mut k: usize = 0;
        while k < writes.len()
            invariant
                k <= writes@.len(),
                holds(writes@, w),
                holds(features@, w.take(k as int)),
            decreases writes@.len() - k,
        {
            features.push(concat(&writes[k], &Vec::new()));
            proof {
                assert(writes@[k as int]@ + Seq::<u8>::empty() =~= writes@[k as int]@);
            }
            k = k + 1;
            assert(w.take(k as int) =~= w.take(k - 1).push(w[k - 1]));
        }
        assert(w.take(w.len() as int) =~= w);
        if cfg.clear {
            let mut f: usize = 0;
            while f < 5
                invariant
                    f <= 5,
                    cfg.clear,
                    holds(features@, w + feature_fallbacks(cfg).take(f as int)),
                decreases 5 - f,
            {
                let id = FEATURE_IDS_33[f];
                features.push(framed(Some(id), &filled(32, 0), None));
                proof {
                    let ff = feature_fallbacks(cfg);
                    assert(ff.take((f + 1) as int) =~= ff.take(f as int).push(ff[f as int]));
                    assert(w + ff.take((f + 1) as int) =~= (w + ff.take(f as int)).push(ff[f as int]));
                }
                f = f + 1;
            }
            features.push(framed(Some(FEATURE_ID_9), &filled(8, 0), None));
            features.push(framed(Some(FEATURE_ID_17), &filled(16, 0), None));
            proof {
                let ff = feature_fallbacks(cfg);
                assert(ff.take(6) =~= ff.take(5).push(ff[5]));
                assert(ff.take(7) =~= ff.take(6).push(ff[6]));
                assert(ff.take(7) =~= ff);
                assert(w + ff =~= (w + ff.take(5)).push(ff[5]).push(ff[6]));
            }
        } else {
            assert(w + feature_fallbacks(cfg) =~= w);
        }
        LedPlan { writes, features }
    }
}

/// Whether at least one candidate write or feature report went through.
pub fn any_succeeded(results: &[bool]) -> (r: bool)
    ensures
        r == exists|i: int| 0 <= i < results@.len() && results@[i],
{
    let mut k: usize = 0;
    while k < results.len()
        invariant
            k <= results@.len(),
            forall|i: int| 0 <= i < k ==> !results@[i],
        decreases results@.len() - k,
    {
        if results[k] {
            return true;
        }
        k = k + 1;
    }
    false
}

} // verus!
