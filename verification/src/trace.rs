//! Diagnostic tracing: a tree of components serializes itself as a flat
//! token stream that a host-side callback (or a test) can inspect.

use vstd::prelude::*;

use vstd::string::StringExecFns;

verus! {

/// One token of a serialized component tree.
pub enum TraceToken {
    /// Raw bytes, e.g. a button label.
    Bytes(Seq<u8>),
    /// A piece of text.
    Str(Seq<char>),
    /// A bare symbol, e.g. `None` for an absent child.
    Tag(Seq<char>),
    /// The start of a named node.
    Open(Seq<char>),
    /// The name of the field that the tokens after it describe.
    Field(Seq<char>),
    /// The end of the current node.
    Close,
}

/// Consumer of trace tokens. Every tracer exposes the tokens it has
/// received as `log`, and each call appends exactly one token.
pub trait Tracer: Sized {
    /// The tokens this tracer has received, in order.
    spec fn log(self) -> Seq<TraceToken>;

    fn bytes(&mut self, b: &[u8])
        ensures
            final(self).log() == old(self).log().push(TraceToken::Bytes(b@)),
    ;

    fn str(&mut self, s: &str)
        ensures
            final(self).log() == old(self).log().push(TraceToken::Str(s@)),
    ;

    fn tag(&mut self, t: &str)
        ensures
            final(self).log() == old(self).log().push(TraceToken::Tag(t@)),
    ;

    fn open(&mut self, name: &str)
        ensures
            final(self).log() == old(self).log().push(TraceToken::Open(name@)),
    ;

    fn field(&mut self, name: &str)
        ensures
            final(self).log() == old(self).log().push(TraceToken::Field(name@)),
    ;

    fn close(&mut self)
        ensures
            final(self).log() == old(self).log().push(TraceToken::Close),
    ;
}

/// A value that can describe itself to a tracer. `trace_tokens` is the
/// exact token sequence one `trace` call appends to the recording.
pub trait Trace: Sized {
    spec fn trace_tokens(self) -> Seq<TraceToken>;

    fn trace(&self, t: &mut TraceRecorder)
        ensures
            final(t).log() == old(t).log() + self.trace_tokens(),
    ;
}

impl Trace for Vec<u8> {
    open spec fn trace_tokens(self) -> Seq<TraceToken> {
        seq![TraceToken::Bytes(self@)]
    }

    fn trace(&self, t: &mut TraceRecorder) {
        t.bytes(self.as_slice());
        proof {
            assert(t.log() =~= old(t).log() + self.trace_tokens());
        }
    }
}

impl<V: Trace> Trace for Option<V> {
    open spec fn trace_tokens(self) -> Seq<TraceToken> {
        match self {
            Some(v) => v.trace_tokens(),
            None => seq![TraceToken::Tag("None"@)],
        }
    }

    fn trace(&self, t: &mut TraceRecorder) {
        match self {
            Some(v) => {
                v.trace(t);
            },
            None => {
                t.tag("None");
                proof {
                    assert(t.log() =~= old(t).log() + self.trace_tokens());
                }
            },
        }
    }
}

/// One recorded trace token, the executable mirror of `TraceToken`.
pub enum TraceEntry {
    Bytes(Vec<u8>),
    Str(String),
    Tag(String),
    Open(String),
    Field(String),
    Close,
}

impl View for TraceEntry {
    type V = TraceToken;

    open spec fn view(&self) -> TraceToken {
        match self {
            TraceEntry::Bytes(b) => TraceToken::Bytes(b@),
            TraceEntry::Str(s) => TraceToken::Str(s@),
            TraceEntry::Tag(s) => TraceToken::Tag(s@),
            TraceEntry::Open(s) => TraceToken::Open(s@),
            TraceEntry::Field(s) => TraceToken::Field(s@),
            TraceEntry::Close => TraceToken::Close,
        }
    }
}

/// A tracer that records every token it receives; tests and the host
/// adapter read the recording back.
pub struct TraceRecorder {
    pub entries: Vec<TraceEntry>,
}

impl TraceRecorder {
    pub fn new() -> (r: TraceRecorder)
        ensures
            r.log() == Seq::<TraceToken>::empty(),
            r.entries@ == Seq::<TraceEntry>::empty(),
    {
        let r = TraceRecorder { entries: Vec::new() };
        proof {
            assert(r.log() =~= Seq::<TraceToken>::empty());
        }
        r
    }
}

impl Tracer for TraceRecorder {
    open spec fn log(self) -> Seq<TraceToken> {
        self.entries@.map_values(|e: TraceEntry| e@)
    }

    fn bytes(&mut self, b: &[u8]) {
        let ghost l0 = self.log();
        let e = TraceEntry::Bytes(vstd::slice::slice_to_vec(b));
        self.entries.push(e);
        proof {
            assert(self.log() =~= l0.push(e@));
        }
    }

    fn str(&mut self, s: &str) {
        let ghost l0 = self.log();
        let e = TraceEntry::Str(String::from_str(s));
        self.entries.push(e);
        proof {
            assert(self.log() =~= l0.push(e@));
        }
    }

    fn tag(&mut self, t: &str) {
        let ghost l0 = self.log();
        let e = TraceEntry::Tag(String::from_str(t));
        self.entries.push(e);
        proof {
            assert(self.log() =~= l0.push(e@));
        }
    }

    fn open(&mut self, name: &str) {
        let ghost l0 = self.log();
        let e = TraceEntry::Open(String::from_str(name));
        self.entries.push(e);
        proof {
            assert(self.log() =~= l0.push(e@));
        }
    }

    fn field(&mut self, name: &str) {
        let ghost l0 = self.log();
        let e = TraceEntry::Field(String::from_str(name));
        self.entries.push(e);
        proof {
            assert(self.log() =~= l0.push(e@));
        }
    }

    fn close(&mut self) {
        let ghost l0 = self.log();
        self.entries.push(TraceEntry::Close);
        proof {
            assert(self.log() =~= l0.push(TraceToken::Close));
        }
    }
}

} // verus!
