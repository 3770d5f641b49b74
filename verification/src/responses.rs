//! The saved HTTP response of a completed publish attempt.
//!
//! An idempotency record stores the full response that was returned the first
//! time a publish request ran: status code, ordered header pairs, and body
//! bytes. A retried request with the same key must get this response back
//! byte for byte, so the type comes with a deep view and a verified clone.

use vstd::prelude::*;

verus! {

/// One response header: a name/value pair. Order among headers is kept.
pub struct HeaderPair {
    pub name: String,
    pub value: String,
}

/// Mathematical value of a header pair: both strings as character sequences.
pub struct HeaderPairView {
    pub name: Seq<char>,
    pub value: Seq<char>,
}

impl View for HeaderPair {
    type V = HeaderPairView;

    open spec fn view(&self) -> HeaderPairView {
        HeaderPairView { name: self.name@, value: self.value@ }
    }
}

/// A response snapshot: status code, ordered headers, body bytes.
pub struct StoredResponse {
    pub status: u16,
    pub headers: Vec<HeaderPair>,
    pub body: Vec<u8>,
}

/// Mathematical value of a response. Two responses with equal views are
/// byte-identical on the wire: same status, same headers in the same order,
/// same body bytes.
pub struct StoredResponseView {
    pub status: u16,
    pub headers: Seq<HeaderPairView>,
    pub body: Seq<u8>,
}

impl View for StoredResponse {
    type V = StoredResponseView;

    open spec fn view(&self) -> StoredResponseView {
        StoredResponseView {
            status: self.status,
            headers: self.headers@.map_values(|h: HeaderPair| h@),
            body: self.body@,
        }
    }
}

impl StoredResponse {
    /// Copies a response. The copy has the same view, which is what replay
    /// needs: the returned response is byte-identical to the saved one.
    pub fn duplicate(&self) -> (r: StoredResponse)
        ensures
            r@ == self@,
    {
        let mut headers: Vec<HeaderPair> = Vec::new();
        let mut i: usize = 0;
        while i < self.headers.len()
            invariant
                i <= self.headers.len(),
                headers@.len() == i,
                forall|k: int| 0 <= k < i ==> #[trigger] headers@[k]@ == self.headers@[k]@,
            decreases self.headers.len() - i,
        {
            let h = &self.headers[i];
            headers.push(HeaderPair { name: h.name.clone(), value: h.value.clone() });
            i = i + 1;
        }
        let mut body: Vec<u8> = Vec::new();
        let mut j: usize = 0;
        while j < self.body.len()
            invariant
                j <= self.body.len(),
                body@.len() == j,
                forall|k: int| 0 <= k < j ==> body@[k] == self.body@[k],
            decreases self.body.len() - j,
        {
            body.push(self.body[j]);
            j = j + 1;
        }
        let r = StoredResponse { status: self.status, headers, body };
        proof {
            assert(r@.headers =~= self@.headers);
            assert(r@.body =~= self@.body);
            assert(r@ =~= self@);
        }
        r
    }
}

} // verus!
