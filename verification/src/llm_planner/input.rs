//! The user's message as a turn receives it.

use vstd::prelude::*;
use crate::llm_planner::message::{blocks, BlockView, ContentBlock};
use crate::text::{blank, join, joined, law_joined_is_blank_with_its_parts, texts};

verus! {

/// A part of a message. Images and documents are held in base 64.
#[derive(Debug, PartialEq, Eq)]
pub enum ContentPart {
    Text(String),
    Image { media_type: String, data: String },
    Document { media_type: String, data: String },
}

/// What a message consists of.
#[derive(Debug, PartialEq, Eq)]
pub enum MessageContent {
    Text(String),
    Image { media_type: String, data: String },
    Document { media_type: String, data: String },
    Mixed(Vec<ContentPart>),
}

/// A message that starts a turn.
#[derive(Debug, PartialEq, Eq)]
pub struct Message {
    pub session: String,
    pub content: MessageContent,
}

/// What a [`ContentPart`] stands for: the block it becomes.
impl View for ContentPart {
    type V = BlockView;

    open spec fn view(&self) -> BlockView {
        match *self {
            ContentPart::Text(text) => BlockView::Text { text: text@ },
            ContentPart::Image { media_type, data } => BlockView::Image {
                media_type: media_type@,
                data: data@,
            },
            ContentPart::Document { media_type, data } => BlockView::Document {
                media_type: media_type@,
                data: data@,
            },
        }
    }
}

/// The blocks that the parts of a sequence become.
pub open spec fn parts(v: Seq<ContentPart>) -> Seq<BlockView> {
    v.map_values(|p: ContentPart| p@)
}

/// What a [`MessageContent`] stands for: the blocks it becomes.
impl View for MessageContent {
    type V = Seq<BlockView>;

    open spec fn view(&self) -> Seq<BlockView> {
        match *self {
            MessageContent::Text(text) => seq![BlockView::Text { text: text@ }],
            MessageContent::Image { media_type, data } => seq![
                BlockView::Image { media_type: media_type@, data: data@ },
            ],
            MessageContent::Document { media_type, data } => seq![
                BlockView::Document { media_type: media_type@, data: data@ },
            ],
            MessageContent::Mixed(v) => parts(v@),
        }
    }
}

/// The texts among blocks, in their order.
pub open spec fn text_blocks(s: Seq<BlockView>) -> Seq<Seq<char>>
    decreases s.len(),
{
    if s.len() == 0 {
        Seq::empty()
    } else {
        let rest = text_blocks(s.drop_last());
        match s.last() {
            BlockView::Text { text } => rest.push(text),
            _ => rest,
        }
    }
}

/// What the user has written: the texts of a message, a space between each
/// two.
pub open spec fn query_of(s: Seq<BlockView>) -> Seq<char> {
    joined(text_blocks(s), " "@)
}

impl ContentPart {
    /// The block that the part becomes.
    fn to_block(&self) -> (r: ContentBlock)
        ensures
            r@ == self@,
    {
        match self {
            ContentPart::Text(text) => ContentBlock::Text { text: text.clone() },
            ContentPart::Image { media_type, data } => ContentBlock::ImageBase64 {
                media_type: media_type.clone(),
                data: data.clone(),
            },
            ContentPart::Document { media_type, data } => ContentBlock::DocumentBase64 {
                media_type: media_type.clone(),
                data: data.clone(),
            },
        }
    }
}

impl MessageContent {
    /// The blocks that the message becomes.
    pub fn to_blocks(&self) -> (r: Vec<ContentBlock>)
        ensures
            blocks(r@) == self@,
    {
        let mut out: Vec<ContentBlock> = Vec::new();
        match self {
            MessageContent::Text(text) => {
                out.push(ContentBlock::Text { text: text.clone() });
                assert(blocks(out@) =~= self@);
            },
            MessageContent::Image { media_type, data } => {
                out.push(
                    ContentBlock::ImageBase64 {
                        media_type: media_type.clone(),
                        data: data.clone(),
                    },
                );
                assert(blocks(out@) =~= self@);
            },
            MessageContent::Document { media_type, data } => {
                out.push(
                    ContentBlock::DocumentBase64 {
                        media_type: media_type.clone(),
                        data: data.clone(),
                    },
                );
                assert(blocks(out@) =~= self@);
            },
            MessageContent::Mixed(v) => {
                let mut i: usize = 0;
                while i < v.len()
                    invariant
                        i <= v@.len(),
                        blocks(out@) == parts(v@).take(i as int),
                    decreases v@.len() - i,
                {
                    let b: ContentBlock = v[i].to_block();
                    let ghost before = out@;
                    out.push(b);
                    assert(blocks(out@) =~= blocks(before).push(b@));
                    assert(parts(v@).take(i + 1) =~= parts(v@).take(i as int).push(
                        parts(v@)[i as int],
                    ));
                    i = i + 1;
                }
                assert(parts(v@).take(i as int) =~= parts(v@));
            },
        }
        out
    }

    /// What the user has written.
    pub fn query_text(&self) -> (r: String)
        ensures
            r@ == query_of(self@),
    {
        let all: Vec<ContentBlock> = self.to_blocks();
        let ghost b = blocks(all@);
        let mut found: Vec<String> = Vec::new();
        let mut i: usize = 0;
        while i < all.len()
            invariant
                i <= all@.len(),
                b == blocks(all@),
                texts(found@) == text_blocks(b.take(i as int)),
            decreases all@.len() - i,
        {
            assert(b.take(i + 1).drop_last() =~= b.take(i as int));
            assert(b.take(i + 1).last() == all@[i as int]@);
            if let ContentBlock::Text { text } = &all[i] {
                let ghost before = found@;
                found.push(text.clone());
                assert(texts(found@) =~= texts(before).push(text@));
            }
            i = i + 1;
        }
        assert(b.take(i as int) =~= b);
        join(&found, " ")
    }
}

/// What the user has written is made of the texts of the message, in their
/// order; what is no text does not count.
pub proof fn law_a_query_is_made_of_the_texts(s: Seq<BlockView>)
    ensures
        text_blocks(s) == s.filter(|b: BlockView| b is Text).map_values(
            |b: BlockView| b->Text_text,
        ),
        query_of(s) == joined(
            s.filter(|b: BlockView| b is Text).map_values(|b: BlockView| b->Text_text),
            " "@,
        ),
    decreases s.len(),
{
    let is_text = |b: BlockView| b is Text;
    let text = |b: BlockView| b->Text_text;
    reveal(Seq::filter);
    if s.len() > 0 {
        let rest = s.drop_last();
        law_a_query_is_made_of_the_texts(rest);
        if s.last() is Text {
            assert(rest.filter(is_text).push(s.last()).map_values(text) =~= rest.filter(
                is_text,
            ).map_values(text).push(text(s.last())));
        }
    } else {
        assert(s.filter(is_text).map_values(text) =~= Seq::<Seq<char>>::empty());
    }
}

/// The user has written nothing exactly where every text of the message is
/// blank.
pub proof fn law_a_query_is_blank_without_words(s: Seq<BlockView>)
    ensures
        blank(query_of(s)) <==> forall|i: int|
            0 <= i < s.len() ==> (#[trigger] s[i] matches BlockView::Text { text } ==> blank(text)),
{
    reveal_strlit(" ");
    law_joined_is_blank_with_its_parts(text_blocks(s), " "@);
    lemma_text_blocks(s);
}

proof fn lemma_text_blocks(s: Seq<BlockView>)
    ensures
        (forall|k: int| 0 <= k < text_blocks(s).len() ==> blank(#[trigger] text_blocks(s)[k]))
            <==> forall|i: int|
            0 <= i < s.len() ==> (#[trigger] s[i] matches BlockView::Text { text } ==> blank(text)),
    decreases s.len(),
{
    if s.len() > 0 {
        let rest = s.drop_last();
        lemma_text_blocks(rest);
        let t = text_blocks(s);
        let u = text_blocks(rest);
        if forall|k: int| 0 <= k < t.len() ==> blank(#[trigger] t[k]) {
            assert forall|k: int| 0 <= k < u.len() implies blank(#[trigger] u[k]) by {
                assert(t[k] == u[k]);
            }
            assert forall|i: int| 0 <= i < s.len() implies (#[trigger] s[i] matches BlockView::Text {
                text,
            } ==> blank(text)) by {
                if i < rest.len() {
                    assert(rest[i] == s[i]);
                } else if s[i] is Text {
                    assert(t[t.len() - 1] == s[i]->Text_text);
                }
            }
        }
        if forall|i: int|
            0 <= i < s.len() ==> (#[trigger] s[i] matches BlockView::Text { text } ==> blank(text)) {
            assert forall|i: int| 0 <= i < rest.len() implies (#[trigger] rest[i] matches
            BlockView::Text { text } ==> blank(text)) by {
                assert(rest[i] == s[i]);
            }
            assert(s[s.len() - 1] matches BlockView::Text { text } ==> blank(text));
            assert forall|k: int| 0 <= k < t.len() implies blank(#[trigger] t[k]) by {
                if k < u.len() {
                    assert(t[k] == u[k]);
                }
            }
        }
    }
}

/// What the user has written of a message of one text is that text.
pub proof fn law_a_text_is_its_own_query(text: Seq<char>)
    ensures
        query_of(seq![BlockView::Text { text }]) == text,
{
    let s = seq![BlockView::Text { text }];
    assert(s.drop_last() =~= Seq::empty());
    assert(text_blocks(s.drop_last()) =~= Seq::empty());
    assert(text_blocks(s) =~= seq![text]);
    assert(seq![text].drop_last() =~= Seq::<Seq<char>>::empty());
}

/// A message is known by the blocks it becomes: each of its parts becomes one,
/// in their order, and no two parts that differ become the same.
pub proof fn law_parts_are_told_apart(
    a: ContentPart,
    b: ContentPart,
    m: MessageContent,
    v: Vec<ContentPart>,
)
    ensures
        a@ == b@ ==> match (a, b) {
            (ContentPart::Text(s), ContentPart::Text(t)) => s@ == t@,
            (
                ContentPart::Image { media_type: k, data: x },
                ContentPart::Image { media_type: n, data: y },
            ) => k@ == n@ && x@ == y@,
            (
                ContentPart::Document { media_type: k, data: x },
                ContentPart::Document { media_type: n, data: y },
            ) => k@ == n@ && x@ == y@,
            _ => false,
        },
        match m {
            MessageContent::Text(s) => m@ == seq![ContentPart::Text(s)@],
            MessageContent::Image { media_type, data } => m@ == seq![
                ContentPart::Image { media_type, data }@,
            ],
            MessageContent::Document { media_type, data } => m@ == seq![
                ContentPart::Document { media_type, data }@,
            ],
            MessageContent::Mixed(w) => m@.len() == w@.len() && forall|i: int|
                0 <= i < w@.len() ==> #[trigger] m@[i] == w@[i]@,
        },
{
}

} // verus!
