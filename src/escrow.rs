use vstd::prelude::*;

verus! {

pub const NEWLINE: u8 = 10;

pub const BACKSLASH: u8 = 92;

pub const LETTER_N: u8 = 110;

/// `content` as it is escrowed: every newline byte becomes the two bytes
/// `\` and `n`, since the escrow store keeps text lines only.
pub open spec fn escaped(content: Seq<u8>) -> Seq<u8>
    decreases content.len(),
{
    if content.len() == 0 {
        seq![]
    } else if content.last() == NEWLINE {
        escaped(content.drop_last()) + seq![BACKSLASH, LETTER_N]
    } else {
        escaped(content.drop_last()).push(content.last())
    }
}

/// Content without a newline is escrowed unchanged.
pub proof fn lemma_escaped_without_newline(content: Seq<u8>)
    requires
        !content.contains(NEWLINE),
    ensures
        escaped(content) == content,
    decreases content.len(),
{
    if content.len() > 0 {
        let init = content.drop_last();
        assert forall|x: u8| init.contains(x) implies content.contains(x) by {
            let i = choose|i: int| 0 <= i < init.len() && init[i] == x;
            assert(content[i] == x);
        }
        lemma_escaped_without_newline(init);
        assert(content[content.len() - 1] == content.last());
        assert(init.push(content.last()) =~= content);
    }
}

/// The bytes to escrow for a file whose content is `content`.
pub fn escape_newlines(content: &Vec<u8>) -> (r: Vec<u8>)
    ensures
        r@ == escaped(content@),
{
    let mut out: Vec<u8> = Vec::new();
    let mut i: usize = 0;
    while i < content.len()
        invariant
            i <= content.len(),
            out@ == escaped(content@.take(i as int)),
        decreases content.len() - i,
    {
        let b = content[i];
        assert(content@.take(i as int + 1).drop_last() =~= content@.take(i as int));
        if b == NEWLINE {
            out.push(BACKSLASH);
            out.push(LETTER_N);
            assert(out@ =~= escaped(content@.take(i as int)) + seq![BACKSLASH, LETTER_N]);
        } else {
            out.push(b);
        }
        i = i + 1;
    }
    assert(content@.take(content.len() as int) =~= content@);
    out
}

} // verus!
