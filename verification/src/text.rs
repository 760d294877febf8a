use vstd::prelude::*;

verus! {

/// The most characters of a text that are ever shown.
pub const MAX_TEXT_CHARS: u16 = 5000;

/// A text of the level that appears one character at a time while the player
/// stands in its area.
#[derive(Debug, Clone, Copy)]
pub struct TextComponent {
    max_chars: u16,
    last_max_chars_change_frame_number: u64,
}

impl TextComponent {
    /// How many characters of the text are shown.
    pub closed spec fn shown(&self) -> u16 {
        self.max_chars
    }

    /// The text frame in which the last character appeared.
    pub closed spec fn last_change(&self) -> u64 {
        self.last_max_chars_change_frame_number
    }

    /// How many characters of the text are shown.
    pub fn max_chars(&self) -> (result: u16)
        ensures
            result == self.shown(),
    {
        self.max_chars
    }

    /// Moves on to text frame `absolute_frame_number`: while the player
    /// overlaps the text, one more character appears in each new text frame,
    /// up to `MAX_TEXT_CHARS`; once the player leaves, the text is hidden again.
    pub fn update(&mut self, overlaps_player: bool, absolute_frame_number: u64)
        ensures
            !overlaps_player ==> final(self).shown() == 0 && final(self).last_change() == 0,
            overlaps_player && old(self).shown() < MAX_TEXT_CHARS && absolute_frame_number > old(
                self,
            ).last_change() ==> final(self).shown() == old(self).shown() + 1
                && final(self).last_change() == absolute_frame_number,
            overlaps_player && (old(self).shown() >= MAX_TEXT_CHARS || absolute_frame_number
                <= old(self).last_change()) ==> *final(self) == *old(self),
    {
        if !overlaps_player {
            self.last_max_chars_change_frame_number = 0;
            self.max_chars = 0;
            return;
        }
        if self.max_chars >= MAX_TEXT_CHARS {
            return;
        }
        if absolute_frame_number > self.last_max_chars_change_frame_number {
            self.last_max_chars_change_frame_number = absolute_frame_number;
            self.max_chars = self.max_chars + 1;
        }
    }
}

impl Default for TextComponent {
    fn default() -> (result: TextComponent)
        ensures
            result.shown() == 0,
            result.last_change() == 0,
    {
        TextComponent { max_chars: 0, last_max_chars_change_frame_number: 0 }
    }
}

/// How much of each line is shown when the first `chars_left` characters of
/// the lines with lengths `lens`, read in order, are shown.
pub open spec fn visible_lengths(lens: Seq<usize>, chars_left: int) -> Seq<usize>
    decreases lens.len(),
{
    if lens.len() == 0 {
        Seq::empty()
    } else {
        let shown = if lens[0] > chars_left {
            chars_left
        } else {
            lens[0] as int
        };
        seq![shown as usize] + visible_lengths(lens.drop_first(), chars_left - shown)
    }
}

/// How much of each line of a text is shown, given the lines' lengths and how
/// many characters of the text are shown.
pub fn visible_line_lengths(line_lengths: &Vec<usize>, max_chars: usize) -> (result: Vec<usize>)
    ensures
        result@ == visible_lengths(line_lengths@, max_chars as int),
{
    let mut result: Vec<usize> = Vec::with_capacity(line_lengths.len());
    let mut chars_left = max_chars;
    assert(line_lengths@.skip(0) =~= line_lengths@);
    assert(result@ + visible_lengths(line_lengths@, max_chars as int) =~= visible_lengths(line_lengths@, max_chars as int));
    for i in 0..line_lengths.len()
        invariant
            result@ + visible_lengths(line_lengths@.skip(i as int), chars_left as int)
                == visible_lengths(line_lengths@, max_chars as int),
    {
        let len = line_lengths[i];
        let end_index = if len > chars_left {
            let prev_chars_left = chars_left;
            chars_left = 0;
            prev_chars_left
        } else {
            chars_left = chars_left - len;
            len
        };
        let ghost rest = line_lengths@.skip(i as int);
        assert(rest.drop_first() =~= line_lengths@.skip(i + 1));
        let ghost prev = result@;
        result.push(end_index);
        assert(prev + (seq![end_index] + visible_lengths(line_lengths@.skip(i + 1), chars_left as int))
            =~= result@ + visible_lengths(line_lengths@.skip(i + 1), chars_left as int));
    }
    assert(line_lengths@.skip(line_lengths@.len() as int) =~= Seq::<usize>::empty());
    assert(result@ + Seq::<usize>::empty() =~= result@);
    result
}

/// The total of the lengths `lens`.
pub open spec fn total_length(lens: Seq<usize>) -> int
    decreases lens.len(),
{
    if lens.len() == 0 {
        0
    } else {
        lens[0] + total_length(lens.drop_first())
    }
}

/// Showing the first `chars_left` characters of a text shows, over all its
/// lines, `chars_left` characters or the whole text if it is shorter, and never
/// more of a line than the line holds.
pub proof fn visible_lengths_show_a_prefix(lens: Seq<usize>, chars_left: int)
    requires
        chars_left >= 0,
    ensures
        visible_lengths(lens, chars_left).len() == lens.len(),
        total_length(visible_lengths(lens, chars_left)) == if chars_left < total_length(lens) {
            chars_left
        } else {
            total_length(lens)
        },
        forall|i: int|
            0 <= i < lens.len() ==> #[trigger] visible_lengths(lens, chars_left)[i] <= lens[i],
    decreases lens.len(),
{
    if lens.len() > 0 {
        let shown = if lens[0] > chars_left {
            chars_left
        } else {
            lens[0] as int
        };
        visible_lengths_show_a_prefix(lens.drop_first(), chars_left - shown);
        let v = visible_lengths(lens, chars_left);
        assert(v.drop_first() =~= visible_lengths(lens.drop_first(), chars_left - shown));
        assert forall|i: int| 0 <= i < lens.len() implies #[trigger] v[i] <= lens[i] by {
            if i > 0 {
                assert(v[i] == visible_lengths(lens.drop_first(), chars_left - shown)[i - 1]);
            }
        }
        if lens[0] > chars_left {
            lemma_total_nonnegative(lens.drop_first());
            assert(chars_left - shown == 0);
        }
    }
}

proof fn lemma_total_nonnegative(lens: Seq<usize>)
    ensures
        total_length(lens) >= 0,
    decreases lens.len(),
{
    if lens.len() > 0 {
        lemma_total_nonnegative(lens.drop_first());
    }
}

} // verus!
