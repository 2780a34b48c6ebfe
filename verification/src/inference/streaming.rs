//! Gathering streamed tokens: the text they spell and their ids.
use vstd::prelude::*;
use crate::error::FuseError;
use crate::inference::backend::Token;

verus! {

/// The text that tokens spell, one after another.
pub open spec fn joined(tokens: Seq<Token>) -> Seq<char>
    decreases tokens.len(),
{
    if tokens.len() == 0 {
        Seq::empty()
    } else {
        joined(tokens.drop_last()) + tokens.last().text@
    }
}

/// The tokens of a stream up to its first error, with the text they spell.
pub struct CollectedOutput {
    pub text: String,
    pub tokens: Vec<Token>,
}

impl CollectedOutput {
    /// Nothing collected yet.
    pub fn new() -> (r: CollectedOutput)
        ensures
            r.text@ == Seq::<char>::empty(),
            r.tokens@ == Seq::<Token>::empty(),
    {
        CollectedOutput { text: String::new(), tokens: Vec::new() }
    }

    /// Takes in the next token of the stream.
    pub fn push(&mut self, token: Token)
        ensures
            final(self).text@ == old(self).text@ + token.text@,
            final(self).tokens@ == old(self).tokens@.push(token),
    {
        self.text.append(token.text.as_str());
        self.tokens.push(token);
    }

    /// The number of tokens collected.
    pub fn token_count(&self) -> (r: usize)
        ensures
            r == self.tokens@.len(),
    {
        self.tokens.len()
    }

    /// The ids of the tokens, in stream order.
    pub fn token_ids(&self) -> (r: Vec<u32>)
        ensures
            r@ == self.tokens@.map_values(|t: Token| t.id),
    {
        let mut ids: Vec<u32> = Vec::new();
        let mut i: usize = 0;
        while i < self.tokens.len()
            invariant
                i <= self.tokens@.len(),
                ids@ == self.tokens@.take(i as int).map_values(|t: Token| t.id),
            decreases self.tokens.len() - i,
        {
            ids.push(self.tokens[i].id);
            assert(self.tokens@.take(i + 1).map_values(|t: Token| t.id) =~= self.tokens@.take(
                i as int,
            ).map_values(|t: Token| t.id).push(self.tokens@[i as int].id));
            i = i + 1;
        }
        assert(self.tokens@.take(self.tokens@.len() as int) =~= self.tokens@);
        ids
    }
}

/// Whether every item of a stream came through.
pub open spec fn all_ok(items: Seq<Result<Token, FuseError>>) -> bool {
    forall|i: int| 0 <= i < items.len() ==> items[i] is Ok
}

/// The position of the first error of a stream.
pub open spec fn first_error(items: Seq<Result<Token, FuseError>>, k: int) -> bool {
    &&& 0 <= k < items.len()
    &&& items[k] is Err
    &&& all_ok(items.take(k))
}

/// The tokens of a stream that came through.
pub open spec fn ok_tokens(items: Seq<Result<Token, FuseError>>) -> Seq<Token> {
    items.map_values(|r: Result<Token, FuseError>| r->Ok_0)
}

/// Collects the items of a stream, in order: the tokens and the text they spell,
/// or the stream's first error.
pub fn collect_stream(items: Vec<Result<Token, FuseError>>) -> (r: Result<CollectedOutput, FuseError>)
    ensures
        match r {
            Ok(out) => all_ok(items@) && out.tokens@ == ok_tokens(items@) && out.text@ == joined(out.tokens@),
            Err(e) => exists|k: int| first_error(items@, k) && items@[k] == Err::<Token, FuseError>(e),
        },
{
    let ghost input = items@;
    let len = items.len();
    let mut out = CollectedOutput::new();
    let mut n: usize = 0;
    for item in it: items
        invariant
            it.seq() == input,
            n == it.index(),
            n <= input.len(),
            input.len() == len,
            all_ok(input.take(n as int)),
            out.tokens@ == ok_tokens(input.take(n as int)),
            out.text@ == joined(out.tokens@),
    {
        match item {
            Ok(token) => {
                let ghost before = out.tokens@;
                out.push(token);
                proof {
                    assert(out.tokens@.drop_last() =~= before);
                    assert(input.take(n + 1) =~= input.take(n as int).push(input[n as int]));
                    assert(ok_tokens(input.take(n + 1)) =~= ok_tokens(input.take(n as int)).push(
                        input[n as int]->Ok_0,
                    ));
                    assert forall|i: int| 0 <= i < n + 1 implies #[trigger] input.take(n + 1)[i] is Ok by {
                        if i < n {
                            assert(input.take(n + 1)[i] == input.take(n as int)[i]);
                        }
                    }
                }
            },
            Err(e) => {
                proof {
                    assert(first_error(input, n as int));
                }
                return Err(e);
            },
        }
        n = n + 1;
    }
    assert(input.take(input.len() as int) =~= input);
    Ok(out)
}

} // verus!
