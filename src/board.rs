//! Board model: the immutable mapping from named controls to their descriptors.
use vstd::prelude::*;
use vstd::string::StrSliceExecFns;

verus! {

broadcast use vstd::string::group_string_axioms;

/// Size of one device frame.
pub const FRAME_LEN: usize = 64;

/// Which half of its source byte an encoder reads.
#[derive(Clone, Copy, Debug, PartialEq, Eq, Structural)]
pub enum NibbleSelect {
    Low,
    High,
}

/// Placement of a button: the bit it reads, the LED it owns, the code it sends.
#[derive(Clone, Copy, Debug, PartialEq, Eq, Structural)]
pub struct ButtonDesc {
    pub byte_i: u8,
    pub bit_j: u8,
    pub led_index: u8,
    pub out_code: u8,
    /// The button is inactive while hotcue mode is on (Toggle and Hold only).
    pub hotcue_ignore: bool,
}

/// What a control is and where it lives in a frame.
#[derive(Clone, Copy, Debug, PartialEq, Eq, Structural)]
pub enum ControlDescriptor {
    Toggle(ButtonDesc),
    Hold(ButtonDesc),
    /// Live only while hotcue mode is on.
    Hotcue(ButtonDesc),
    Knob { byte_i: u8, byte_j: u8, out_code: u8 },
    Encoder { byte_i: u8, nibble: NibbleSelect, out_code: u8 },
}

/// The part a control plays beyond its descriptor, fixed by its name.
#[derive(Clone, Copy, Debug, PartialEq, Eq, Structural)]
pub enum ControlRole {
    Play,
    Cue,
    Shift,
    HotcueMode,
    HotcueButton,
    Plain,
}

/// One named control of the board.
#[derive(Debug)]
pub struct Control {
    pub name: String,
    pub role: ControlRole,
    pub desc: ControlDescriptor,
}

/// A validated board: every source byte lies within a frame, every bit within a byte.
#[derive(Debug)]
pub struct Board {
    pub controls: Vec<Control>,
}

/// Why a board description was refused.
#[derive(Clone, Copy, Debug, PartialEq, Eq, Structural)]
pub enum BoardError {
    /// The control at this position reads a byte outside the frame.
    ByteOutOfRange(usize),
    /// The control at this position reads a bit above 7.
    BitOutOfRange(usize),
}

/// The role of the control with this name.
pub open spec fn role_of(name: Seq<char>) -> ControlRole {
    if name == "DECK_A_BUTTON_PLAY"@ || name == "DECK_B_BUTTON_PLAY"@ {
        ControlRole::Play
    } else if name == "DECK_A_BUTTON_CUE"@ || name == "DECK_B_BUTTON_CUE"@ {
        ControlRole::Cue
    } else if name == "SHIFT"@ {
        ControlRole::Shift
    } else if name == "HOTCUE"@ {
        ControlRole::HotcueMode
    } else if is_prefix(name, "DECK_A_HOTCUE"@) || is_prefix(name, "DECK_B_HOTCUE"@) {
        ControlRole::HotcueButton
    } else {
        ControlRole::Plain
    }
}

pub open spec fn is_prefix(s: Seq<char>, p: Seq<char>) -> bool {
    p.len() <= s.len() && s.subrange(0, p.len() as int) == p
}

/// Whether `p` is a prefix of `s`.
pub fn has_prefix(s: &str, p: &str) -> (r: bool)
    ensures
        r == is_prefix(s@, p@),
{
    let n = s.unicode_len();
    let m = p.unicode_len();
    if m > n {
        return false;
    }
    let mut k: usize = 0;
    while k < m
        invariant
            m <= n,
            n == s@.len(),
            m == p@.len(),
            k <= m,
            forall|t: int| 0 <= t < k ==> s@[t] == p@[t],
        decreases m - k,
    {
        if s.get_char(k) != p.get_char(k) {
            assert(s@.subrange(0, m as int)[k as int] != p@[k as int]);
            return false;
        }
        k = k + 1;
    }
    assert(s@.subrange(0, m as int) =~= p@);
    true
}

/// Whether `s` and `p` hold the same characters.
pub fn same_text(s: &str, p: &str) -> (r: bool)
    ensures
        r == (s@ == p@),
{
    let r = s.unicode_len() == p.unicode_len() && has_prefix(s, p);
    proof {
        if s@.len() == p@.len() && is_prefix(s@, p@) {
            assert(s@ =~= s@.subrange(0, p@.len() as int));
        }
        if s@ == p@ {
            assert(s@.subrange(0, p@.len() as int) =~= p@);
        }
    }
    r
}

/// Classifies a control by its name (see `role_of`).
pub fn role_of_name(name: &str) -> (r: ControlRole)
    ensures
        r == role_of(name@),
{
    if same_text(name, "DECK_A_BUTTON_PLAY") || same_text(name, "DECK_B_BUTTON_PLAY") {
        ControlRole::Play
    } else if same_text(name, "DECK_A_BUTTON_CUE") || same_text(name, "DECK_B_BUTTON_CUE") {
        ControlRole::Cue
    } else if same_text(name, "SHIFT") {
        ControlRole::Shift
    } else if same_text(name, "HOTCUE") {
        ControlRole::HotcueMode
    } else if has_prefix(name, "DECK_A_HOTCUE") || has_prefix(name, "DECK_B_HOTCUE") {
        ControlRole::HotcueButton
    } else {
        ControlRole::Plain
    }
}

/// Every source byte of the descriptor lies within a frame.
pub open spec fn bytes_in_frame(d: ControlDescriptor) -> bool {
    match d {
        ControlDescriptor::Toggle(b) | ControlDescriptor::Hold(b) | ControlDescriptor::Hotcue(b) => b.byte_i < FRAME_LEN,
        ControlDescriptor::Knob { byte_i, byte_j, .. } => byte_i < FRAME_LEN && byte_j < FRAME_LEN,
        ControlDescriptor::Encoder { byte_i, .. } => byte_i < FRAME_LEN,
    }
}

/// A button reads a bit 0..=7.
pub open spec fn bit_in_byte(d: ControlDescriptor) -> bool {
    match d {
        ControlDescriptor::Toggle(b) | ControlDescriptor::Hold(b) | ControlDescriptor::Hotcue(b) => b.bit_j < 8,
        _ => true,
    }
}

pub open spec fn desc_wf(d: ControlDescriptor) -> bool {
    bytes_in_frame(d) && bit_in_byte(d)
}

pub open spec fn is_button(d: ControlDescriptor) -> bool {
    match d {
        ControlDescriptor::Toggle(_) | ControlDescriptor::Hold(_) | ControlDescriptor::Hotcue(_) => true,
        _ => false,
    }
}

pub open spec fn button_of(d: ControlDescriptor) -> ButtonDesc {
    match d {
        ControlDescriptor::Toggle(b) | ControlDescriptor::Hold(b) | ControlDescriptor::Hotcue(b) => b,
        _ => arbitrary(),
    }
}

/// The error that `Board::new` reports for entries `e`, if any: the first
/// entry that reads outside the frame or a bit above 7.
pub open spec fn first_fault(e: Seq<(String, ControlDescriptor)>, k: int) -> Option<BoardError>
    decreases e.len() - k,
{
    if k < 0 || k >= e.len() {
        None
    } else if !bytes_in_frame(e[k].1) {
        Some(BoardError::ByteOutOfRange(k as usize))
    } else if !bit_in_byte(e[k].1) {
        Some(BoardError::BitOutOfRange(k as usize))
    } else {
        first_fault(e, k + 1)
    }
}

proof fn lemma_first_fault_none(e: Seq<(String, ControlDescriptor)>, k: int)
    requires
        0 <= k <= e.len(),
        forall|t: int| k <= t < e.len() ==> desc_wf(e[t].1),
    ensures
        first_fault(e, k) == None::<BoardError>,
    decreases e.len() - k,
{
    if k < e.len() {
        lemma_first_fault_none(e, k + 1);
    }
}

impl Board {
    pub open spec fn wf(&self) -> bool {
        forall|k: int|
            0 <= k < self.controls@.len() ==> {
                &&& desc_wf(#[trigger] self.controls@[k].desc)
                &&& self.controls@[k].role == role_of(self.controls@[k].name@)
            }
    }

    /// Builds a board from named descriptors, in the given order, giving each
    /// control the role its name fixes. Refuses the first entry that reads a
    /// byte outside the frame or a bit above 7.
    pub fn new(entries: Vec<(String, ControlDescriptor)>) -> (r: Result<Board, BoardError>)
        ensures
            match first_fault(entries@, 0) {
                Some(err) => r == Err::<Board, BoardError>(err),
                None => r is Ok && {
                    let b = r->Ok_0;
                    &&& b.wf()
                    &&& b.controls@.len() == entries@.len()
                    &&& forall|k: int|
                        0 <= k < entries@.len() ==> {
                            &&& (#[trigger] b.controls@[k]).name@ == entries@[k].0@
                            &&& b.controls@[k].desc == entries@[k].1
                        }
                },
            },
    {
        let mut controls: Vec<Control> = Vec::new();
        let mut k: usize = 0;
        while k < entries.len()
            invariant
                k <= entries@.len(),
                controls@.len() == k,
                forall|t: int| 0 <= t < k ==> desc_wf(#[trigger] entries@[t].1),
                forall|t: int|
                    0 <= t < k ==> {
                        &&& (#[trigger] controls@[t]).name@ == entries@[t].0@
                        &&& controls@[t].desc == entries@[t].1
                        &&& controls@[t].role == role_of(controls@[t].name@)
                    },
                first_fault(entries@, 0) == first_fault(entries@, k as int),
            decreases entries@.len() - k,
        {
            let d = entries[k].1;
            let (byte_ok, bit_ok) = match d {
                ControlDescriptor::Toggle(b) | ControlDescriptor::Hold(b) | ControlDescriptor::Hotcue(b) => (
                    (b.byte_i as usize) < FRAME_LEN,
                    b.bit_j < 8,
                ),
                ControlDescriptor::Knob { byte_i, byte_j, .. } => (
                    (byte_i as usize) < FRAME_LEN && (byte_j as usize) < FRAME_LEN,
                    true,
                ),
                ControlDescriptor::Encoder { byte_i, .. } => ((byte_i as usize) < FRAME_LEN, true),
            };
            if !byte_ok {
                return Err(BoardError::ByteOutOfRange(k));
            }
            if !bit_ok {
                return Err(BoardError::BitOutOfRange(k));
            }
            let name = entries[k].0.clone();
            let role = role_of_name(name.as_str());
            controls.push(Control { name, role, desc: d });
            k = k + 1;
        }
        proof {
            lemma_first_fault_none(entries@, k as int);
        }
        let b = Board { controls };
        assert(b.wf());
        Ok(b)
    }

    pub fn len(&self) -> (r: usize)
        ensures
            r == self.controls@.len(),
    {
        self.controls.len()
    }
}

} // verus!
