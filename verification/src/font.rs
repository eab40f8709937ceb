use vstd::prelude::*;

verus! {

/// MIDI address of a preset inside a soundfont: the (bank, program) pair.
/// Bank 128 is the conventional percussion-bank sentinel.
#[derive(Clone, Copy, PartialEq, Eq, Structural, Debug)]
pub struct PresetKey {
    pub bank: u32,
    pub num: u8,
}

/// One loaded soundfont: the ordered list of preset addresses it offers.
/// Presets are immutable once loaded; channels hold handles, never copies.
pub struct SoundFont {
    pub presets: Vec<PresetKey>,
}

/// Handle to a resolved preset: an opaque pair of the soundfont slot it
/// lives in and the preset index within that soundfont.
#[derive(Clone, Copy, PartialEq, Eq, Structural, Debug)]
pub struct PresetId {
    pub sfont_id: usize,
    pub preset_idx: usize,
}

pub open spec fn key_matches(k: PresetKey, bank: u32, num: u8) -> bool {
    k.bank == bank && k.num == num
}

/// Index of the first preset in one font that matches (bank, num).
pub open spec fn font_find(presets: Seq<PresetKey>, bank: u32, num: u8) -> Option<int>
    decreases presets.len(),
{
    if presets.len() == 0 {
        None
    } else if key_matches(presets[0], bank, num) {
        Some(0int)
    } else {
        match font_find(presets.subrange(1, presets.len() as int), bank, num) {
            Some(i) => Some(i + 1),
            None => None,
        }
    }
}

/// `font_find` returns the first matching index, or `None` exactly when no
/// preset of the font matches.
pub proof fn lemma_font_find(presets: Seq<PresetKey>, bank: u32, num: u8)
    ensures
        match font_find(presets, bank, num) {
            Some(i) => 0 <= i < presets.len() && key_matches(presets[i], bank, num)
                && (forall|j: int| 0 <= j < i ==> !key_matches(presets[j], bank, num)),
            None => forall|j: int|
                0 <= j < presets.len() ==> !key_matches(presets[j], bank, num),
        },
    decreases presets.len(),
{
    if presets.len() == 0 {
    } else if key_matches(presets[0], bank, num) {
    } else {
        let tail = presets.subrange(1, presets.len() as int);
        lemma_font_find(tail, bank, num);
        match font_find(tail, bank, num) {
            Some(i) => {
                assert(presets[i + 1] == tail[i]);
                assert forall|j: int| 0 <= j < i + 1 implies !key_matches(
                    presets[j],
                    bank,
                    num,
                ) by {
                    if j >= 1 {
                        assert(presets[j] == tail[j - 1]);
                        assert(!key_matches(tail[j - 1], bank, num));
                    }
                }
            }
            None => {
                assert forall|j: int| 0 <= j < presets.len() implies !key_matches(
                    presets[j],
                    bank,
                    num,
                ) by {
                    if j >= 1 {
                        assert(presets[j] == tail[j - 1]);
                        assert(!key_matches(tail[j - 1], bank, num));
                    }
                }
            }
        }
    }
}

/// Result of looking (bank, num) up in the soundfont stack: the most
/// recently loaded font (highest index) that offers the pair wins, and
/// within it the first matching preset.
pub open spec fn stack_find(fonts: Seq<SoundFont>, bank: u32, num: u8) -> Option<PresetId>
    decreases fonts.len(),
{
    if fonts.len() == 0 {
        None
    } else {
        let top = fonts.len() - 1;
        match font_find(fonts[top].presets@, bank, num) {
            Some(i) => Some(PresetId { sfont_id: top as usize, preset_idx: i as usize }),
            None => stack_find(fonts.drop_last(), bank, num),
        }
    }
}

/// The stack and every font in it fit the machine's index range. This holds
/// of every stack built from executable vectors and keeps the index pairs in
/// `PresetId` faithful.
pub open spec fn fonts_wf(fonts: Seq<SoundFont>) -> bool {
    &&& fonts.len() <= usize::MAX
    &&& forall|f: int| 0 <= f < fonts.len() ==> fonts[f].presets@.len() <= usize::MAX
}

/// A `stack_find` hit is a valid index pair naming a matching preset; a miss
/// means no font in the stack offers the pair at all.
pub proof fn lemma_stack_find(fonts: Seq<SoundFont>, bank: u32, num: u8)
    requires
        fonts_wf(fonts),
    ensures
        match stack_find(fonts, bank, num) {
            Some(p) => p.sfont_id < fonts.len()
                && p.preset_idx < fonts[p.sfont_id as int].presets@.len()
                && key_matches(fonts[p.sfont_id as int].presets@[p.preset_idx as int], bank, num),
            None => forall|f: int, j: int|
                0 <= f < fonts.len() && 0 <= j < fonts[f].presets@.len()
                    ==> !key_matches(fonts[f].presets@[j], bank, num),
        },
    decreases fonts.len(),
{
    if fonts.len() == 0 {
    } else {
        let top = fonts.len() - 1;
        lemma_font_find(fonts[top].presets@, bank, num);
        match font_find(fonts[top].presets@, bank, num) {
            Some(i) => {}
            None => {
                let rest = fonts.drop_last();
                assert(forall|f: int| 0 <= f < rest.len() ==> rest[f] == fonts[f]);
                lemma_stack_find(rest, bank, num);
                match stack_find(rest, bank, num) {
                    Some(p) => {
                        assert(rest[p.sfont_id as int] == fonts[p.sfont_id as int]);
                    }
                    None => {
                        assert forall|f: int, j: int|
                            0 <= f < fonts.len() && 0 <= j < fonts[f].presets@.len()
                                implies !key_matches(fonts[f].presets@[j], bank, num) by {
                            if f < fonts.len() - 1 {
                                assert(rest[f] == fonts[f]);
                            }
                        }
                    }
                }
            }
        }
    }
}

/// First preset of one font matching (bank, num), scanning in order.
fn scan_font(presets: &Vec<PresetKey>, bank: u32, num: u8) -> (r: Option<usize>)
    ensures
        match r {
            Some(i) => font_find(presets@, bank, num) == Some(i as int),
            None => font_find(presets@, bank, num) is None,
        },
{
    let mut i: usize = 0;
    while i < presets.len()
        invariant
            i <= presets@.len(),
            forall|j: int| 0 <= j < i ==> !key_matches(presets@[j], bank, num),
        decreases presets@.len() - i,
    {
        let k = presets[i];
        if k.bank == bank && k.num == num {
            proof {
                lemma_font_find(presets@, bank, num);
            }
            return Some(i);
        }
        i = i + 1;
    }
    proof {
        lemma_font_find(presets@, bank, num);
    }
    None
}

/// Walk the loaded soundfont stack, most recently loaded font first, and
/// return the handle of the first preset matching (bank, num).
pub fn find_preset(fonts: &Vec<SoundFont>, bank: u32, num: u8) -> (r: Option<PresetId>)
    ensures
        r == stack_find(fonts@, bank, num),
{
    let mut i: usize = fonts.len();
    proof {
        assert(fonts@.subrange(0, i as int) =~= fonts@);
    }
    while i > 0
        invariant
            i <= fonts@.len(),
            stack_find(fonts@, bank, num) == stack_find(fonts@.subrange(0, i as int), bank, num),
        decreases i,
    {
        let found = scan_font(&fonts[i - 1].presets, bank, num);
        proof {
            let part = fonts@.subrange(0, i as int);
            assert(part[part.len() - 1] == fonts@[i - 1]);
            assert(part.drop_last() =~= fonts@.subrange(0, i as int - 1));
        }
        if let Some(j) = found {
            return Some(PresetId { sfont_id: i - 1, preset_idx: j });
        }
        i = i - 1;
    }
    proof {
        assert(fonts@.subrange(0, 0) =~= Seq::<SoundFont>::empty());
    }
    None
}

/// Result of a direct, non-cascading lookup in one explicit soundfont slot.
pub open spec fn slot_find(
    fonts: Seq<SoundFont>,
    sfont_id: usize,
    bank: u32,
    num: u8,
) -> Option<PresetId> {
    if sfont_id < fonts.len() {
        match font_find(fonts[sfont_id as int].presets@, bank, num) {
            Some(i) => Some(PresetId { sfont_id, preset_idx: i as usize }),
            None => None,
        }
    } else {
        None
    }
}

/// Look a preset up in one explicit soundfont slot, bypassing the stack
/// masking that `find_preset` applies.
pub fn get_preset(fonts: &Vec<SoundFont>, sfont_id: usize, bank: u32, num: u8) -> (r: Option<
    PresetId,
>)
    ensures
        r == slot_find(fonts@, sfont_id, bank, num),
{
    if sfont_id < fonts.len() {
        match scan_font(&fonts[sfont_id].presets, bank, num) {
            Some(i) => Some(PresetId { sfont_id, preset_idx: i }),
            None => None,
        }
    } else {
        None
    }
}

} // verus!
