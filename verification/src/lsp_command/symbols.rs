//! The symbols of a document, as a tree.
use vstd::prelude::*;

use crate::lsp_store::text_edits::PointUtf16;

verus! {

/// A symbol. The kind is the number that servers give it.
#[derive(Debug)]
pub struct DocumentSymbol {
    pub name: String,
    pub kind: i32,
    pub start: PointUtf16,
    pub end: PointUtf16,
    pub selection_start: PointUtf16,
    pub selection_end: PointUtf16,
    pub children: Vec<DocumentSymbol>,
}

/// A symbol in a list, as a server states it.
#[derive(Debug)]
pub struct SymbolInformation {
    pub name: String,
    pub kind: i32,
    pub start: PointUtf16,
    pub end: PointUtf16,
}

/// A symbol in a tree, as a server states it.
#[derive(Debug)]
pub struct LspDocumentSymbol {
    pub name: String,
    pub kind: i32,
    pub start: PointUtf16,
    pub end: PointUtf16,
    pub selection_start: PointUtf16,
    pub selection_end: PointUtf16,
    pub children: Option<Vec<LspDocumentSymbol>>,
}

#[derive(Debug)]
pub enum DocumentSymbolResponse {
    Flat(Vec<SymbolInformation>),
    Nested(Vec<LspDocumentSymbol>),
}

/// The symbol stands for the one in the list; it is selected as a whole and has no
/// children.
pub open spec fn is_flat(symbol: DocumentSymbol, lsp: SymbolInformation) -> bool {
    &&& symbol.name == lsp.name
    &&& symbol.kind == lsp.kind
    &&& symbol.start == lsp.start
    &&& symbol.end == lsp.end
    &&& symbol.selection_start == lsp.start
    &&& symbol.selection_end == lsp.end
    &&& symbol.children@.len() == 0
}

/// The symbol stands for the one in the tree, and so do its children.
pub open spec fn is_nested(symbol: DocumentSymbol, lsp: LspDocumentSymbol) -> bool
    decreases lsp,
{
    &&& symbol.name == lsp.name
    &&& symbol.kind == lsp.kind
    &&& symbol.start == lsp.start
    &&& symbol.end == lsp.end
    &&& symbol.selection_start == lsp.selection_start
    &&& symbol.selection_end == lsp.selection_end
    &&& match lsp.children {
        None => symbol.children@.len() == 0,
        Some(children) => {
            &&& symbol.children@.len() == children@.len()
            &&& forall|i: int|
                0 <= i < children@.len() ==> is_nested(
                    #[trigger] symbol.children@[i],
                    children@[i],
                )
        },
    }
}

fn convert_symbol(lsp: &LspDocumentSymbol) -> (symbol: DocumentSymbol)
    ensures
        is_nested(symbol, *lsp),
    decreases *lsp,
{
    let mut converted: Vec<DocumentSymbol> = Vec::new();
    if let Some(children) = &lsp.children {
        let mut i: usize = 0;
        while i < children.len()
            invariant
                i <= children@.len(),
                lsp.children == Some(*children),
                converted@.len() == i,
                forall|j: int|
                    0 <= j < i ==> is_nested(#[trigger] converted@[j], children@[j]),
            decreases children@.len() - i,
        {
            proof {
                assert(decreases_to!(*lsp => lsp.children));
                assert(decreases_to!(lsp.children => lsp.children->0));
                assert(decreases_to!(*children => children@[i as int]));
            }
            converted.push(convert_symbol(&children[i]));
            i += 1;
        }
    }
    DocumentSymbol {
        name: lsp.name.clone(),
        kind: lsp.kind,
        start: lsp.start,
        end: lsp.end,
        selection_start: lsp.selection_start,
        selection_end: lsp.selection_end,
        children: converted,
    }
}

/// What an answer of a server means.
pub fn document_symbols_from_lsp(message: &Option<DocumentSymbolResponse>) -> (symbols: Vec<
    DocumentSymbol,
>)
    ensures
        match *message {
            None => symbols@.len() == 0,
            Some(DocumentSymbolResponse::Flat(list)) => {
                &&& symbols@.len() == list@.len()
                &&& forall|i: int| 0 <= i < list@.len() ==> is_flat(#[trigger] symbols@[i], list@[i])
            },
            Some(DocumentSymbolResponse::Nested(list)) => {
                &&& symbols@.len() == list@.len()
                &&& forall|i: int|
                    0 <= i < list@.len() ==> is_nested(#[trigger] symbols@[i], list@[i])
            },
        },
{
    let mut symbols: Vec<DocumentSymbol> = Vec::new();
    match message {
        None => {},
        Some(DocumentSymbolResponse::Flat(list)) => {
            let mut i: usize = 0;
            while i < list.len()
                invariant
                    i <= list@.len(),
                    symbols@.len() == i,
                    forall|j: int| 0 <= j < i ==> is_flat(#[trigger] symbols@[j], list@[j]),
                decreases list@.len() - i,
            {
                let lsp: &SymbolInformation = &list[i];
                symbols.push(
                    DocumentSymbol {
                        name: lsp.name.clone(),
                        kind: lsp.kind,
                        start: lsp.start,
                        end: lsp.end,
                        selection_start: lsp.start,
                        selection_end: lsp.end,
                        children: Vec::new(),
                    },
                );
                i += 1;
            }
        },
        Some(DocumentSymbolResponse::Nested(list)) => {
            let mut i: usize = 0;
            while i < list.len()
                invariant
                    i <= list@.len(),
                    symbols@.len() == i,
                    forall|j: int| 0 <= j < i ==> is_nested(#[trigger] symbols@[j], list@[j]),
                decreases list@.len() - i,
            {
                symbols.push(convert_symbol(&list[i]));
                i += 1;
            }
        },
    }
    symbols
}

/// The wire form of a symbol, in which places may be missing.
#[derive(Debug)]
pub struct ProtoDocumentSymbol {
    pub name: String,
    pub kind: i32,
    pub start: Option<PointUtf16>,
    pub end: Option<PointUtf16>,
    pub selection_start: Option<PointUtf16>,
    pub selection_end: Option<PointUtf16>,
    pub children: Vec<ProtoDocumentSymbol>,
}

#[derive(Clone, Copy, Debug, PartialEq, Eq, Structural)]
pub enum SymbolWireError {
    InvalidStart,
    InvalidEnd,
    InvalidSelectionStart,
    InvalidSelectionEnd,
}

impl SymbolWireError {
    pub fn message(&self) -> (message: &'static str)
        ensures
            message@ == (match *self {
                SymbolWireError::InvalidStart => "invalid start"@,
                SymbolWireError::InvalidEnd => "invalid end"@,
                SymbolWireError::InvalidSelectionStart => "invalid selection start"@,
                SymbolWireError::InvalidSelectionEnd => "invalid selection end"@,
            }),
    {
        match self {
            SymbolWireError::InvalidStart => "invalid start",
            SymbolWireError::InvalidEnd => "invalid end",
            SymbolWireError::InvalidSelectionStart => "invalid selection start",
            SymbolWireError::InvalidSelectionEnd => "invalid selection end",
        }
    }
}

/// The message is the wire form of the symbol, and so are its children.
pub open spec fn is_wire(message: ProtoDocumentSymbol, symbol: DocumentSymbol) -> bool
    decreases symbol,
{
    &&& message.name == symbol.name
    &&& message.kind == symbol.kind
    &&& message.start == Some(symbol.start)
    &&& message.end == Some(symbol.end)
    &&& message.selection_start == Some(symbol.selection_start)
    &&& message.selection_end == Some(symbol.selection_end)
    &&& message.children@.len() == symbol.children@.len()
    &&& forall|i: int|
        0 <= i < symbol.children@.len() ==> is_wire(
            #[trigger] message.children@[i],
            symbol.children@[i],
        )
}

fn convert_symbol_to_proto(symbol: &DocumentSymbol) -> (message: ProtoDocumentSymbol)
    ensures
        is_wire(message, *symbol),
    decreases *symbol,
{
    let mut children: Vec<ProtoDocumentSymbol> = Vec::new();
    let mut i: usize = 0;
    while i < symbol.children.len()
        invariant
            i <= symbol.children@.len(),
            children@.len() == i,
            forall|j: int| 0 <= j < i ==> is_wire(#[trigger] children@[j], symbol.children@[j]),
        decreases symbol.children@.len() - i,
    {
        children.push(convert_symbol_to_proto(&symbol.children[i]));
        i += 1;
    }
    ProtoDocumentSymbol {
        name: symbol.name.clone(),
        kind: symbol.kind,
        start: Some(symbol.start),
        end: Some(symbol.end),
        selection_start: Some(symbol.selection_start),
        selection_end: Some(symbol.selection_end),
        children,
    }
}

pub fn document_symbols_to_proto(symbols: &Vec<DocumentSymbol>) -> (messages: Vec<
    ProtoDocumentSymbol,
>)
    ensures
        messages@.len() == symbols@.len(),
        forall|i: int| 0 <= i < symbols@.len() ==> is_wire(#[trigger] messages@[i], symbols@[i]),
{
    let mut messages: Vec<ProtoDocumentSymbol> = Vec::new();
    let mut i: usize = 0;
    while i < symbols.len()
        invariant
            i <= symbols@.len(),
            messages@.len() == i,
            forall|j: int| 0 <= j < i ==> is_wire(#[trigger] messages@[j], symbols@[j]),
        decreases symbols@.len() - i,
    {
        messages.push(convert_symbol_to_proto(&symbols[i]));
        i += 1;
    }
    messages
}

/// What is wrong with a message itself, its children aside.
pub open spec fn wire_error(message: ProtoDocumentSymbol) -> Option<SymbolWireError> {
    if message.start is None {
        Some(SymbolWireError::InvalidStart)
    } else if message.end is None {
        Some(SymbolWireError::InvalidEnd)
    } else if message.selection_start is None {
        Some(SymbolWireError::InvalidSelectionStart)
    } else if message.selection_end is None {
        Some(SymbolWireError::InvalidSelectionEnd)
    } else {
        None
    }
}

/// The symbol is what a message means, where nothing is wrong with the message itself.
pub open spec fn is_meant(symbol: DocumentSymbol, message: ProtoDocumentSymbol) -> bool
    decreases message, 0nat,
{
    &&& wire_error(message) is None
    &&& symbol.name == message.name
    &&& symbol.kind == message.kind
    &&& symbol.start == message.start->0
    &&& symbol.end == message.end->0
    &&& symbol.selection_start == message.selection_start->0
    &&& symbol.selection_end == message.selection_end->0
    &&& are_meant(symbol.children@, message.children@)
}

/// The symbols are what the messages mean, those that something is wrong with left out.
pub open spec fn are_meant(symbols: Seq<DocumentSymbol>, messages: Seq<ProtoDocumentSymbol>) -> bool
    decreases messages, messages.len(),
{
    if messages.len() == 0 {
        symbols.len() == 0
    } else if wire_error(messages[messages.len() - 1]) is Some {
        are_meant(symbols, messages.subrange(0, messages.len() - 1))
    } else {
        &&& symbols.len() > 0
        &&& is_meant(symbols.last(), messages[messages.len() - 1])
        &&& are_meant(symbols.drop_last(), messages.subrange(0, messages.len() - 1))
    }
}

fn deserialize_symbol_with_children(message: &ProtoDocumentSymbol) -> (symbol: Result<
    DocumentSymbol,
    SymbolWireError,
>)
    ensures
        match symbol {
            Ok(symbol) => is_meant(symbol, *message),
            Err(error) => wire_error(*message) == Some(error),
        },
    decreases *message,
{
    let start: PointUtf16 = match message.start {
        Some(start) => start,
        None => return Err(SymbolWireError::InvalidStart),
    };
    let end: PointUtf16 = match message.end {
        Some(end) => end,
        None => return Err(SymbolWireError::InvalidEnd),
    };
    let selection_start: PointUtf16 = match message.selection_start {
        Some(start) => start,
        None => return Err(SymbolWireError::InvalidSelectionStart),
    };
    let selection_end: PointUtf16 = match message.selection_end {
        Some(end) => end,
        None => return Err(SymbolWireError::InvalidSelectionEnd),
    };
    let mut children: Vec<DocumentSymbol> = Vec::new();
    let mut i: usize = 0;
    let ghost messages = message.children@;
    assert(messages.subrange(0, 0).len() == 0);
    while i < message.children.len()
        invariant
            i <= message.children@.len(),
            messages == message.children@,
            are_meant(children@, messages.subrange(0, i as int)),
        decreases message.children@.len() - i,
    {
        let ghost seen = messages.subrange(0, i as int);
        let ghost next = messages.subrange(0, i + 1);
        let ghost before = children@;
        proof {
            assert(next[next.len() - 1] == messages[i as int]);
            assert(next.subrange(0, next.len() - 1) =~= seen);
            assert(decreases_to!(message.children => message.children@[i as int]));
        }
        match deserialize_symbol_with_children(&message.children[i]) {
            Ok(child) => {
                children.push(child);
                assert(children@.drop_last() =~= before);
            },
            Err(_) => {},
        }
        i += 1;
    }
    assert(messages.subrange(0, i as int) =~= messages);
    Ok(
        DocumentSymbol {
            name: message.name.clone(),
            kind: message.kind,
            start,
            end,
            selection_start,
            selection_end,
            children,
        },
    )
}

/// The first message that something is wrong with, and what.
pub open spec fn first_error(messages: Seq<ProtoDocumentSymbol>) -> Option<SymbolWireError>
    decreases messages.len(),
{
    if messages.len() == 0 {
        None
    } else if first_error(messages.drop_last()) is Some {
        first_error(messages.drop_last())
    } else {
        wire_error(messages.last())
    }
}

/// What messages mean. Something wrong with one of them makes all of them invalid;
/// something wrong with a child only loses the child.
pub fn document_symbols_from_proto(messages: &Vec<ProtoDocumentSymbol>) -> (symbols: Result<
    Vec<DocumentSymbol>,
    SymbolWireError,
>)
    ensures
        match symbols {
            Ok(symbols) => {
                &&& first_error(messages@) is None
                &&& symbols@.len() == messages@.len()
                &&& forall|i: int|
                    0 <= i < messages@.len() ==> is_meant(#[trigger] symbols@[i], messages@[i])
            },
            Err(error) => first_error(messages@) == Some(error),
        },
{
    let mut symbols: Vec<DocumentSymbol> = Vec::new();
    let mut failed: Option<SymbolWireError> = None;
    let mut i: usize = 0;
    while i < messages.len()
        invariant
            i <= messages@.len(),
            failed == first_error(messages@.take(i as int)),
            failed is None ==> symbols@.len() == i && forall|j: int|
                0 <= j < i ==> is_meant(#[trigger] symbols@[j], messages@[j]),
        decreases messages@.len() - i,
    {
        assert(messages@.take(i + 1).drop_last() =~= messages@.take(i as int));
        assert(messages@.take(i + 1).last() == messages@[i as int]);
        if failed.is_none() {
            match deserialize_symbol_with_children(&messages[i]) {
                Ok(symbol) => {
                    symbols.push(symbol);
                },
                Err(error) => {
                    failed = Some(error);
                },
            }
        }
        i += 1;
    }
    assert(messages@.take(i as int) =~= messages@);
    match failed {
        Some(error) => Err(error),
        None => Ok(symbols),
    }
}

/// The two are the same symbol, with the same children.
pub open spec fn same_symbol(a: DocumentSymbol, b: DocumentSymbol) -> bool
    decreases a,
{
    &&& a.name == b.name
    &&& a.kind == b.kind
    &&& a.start == b.start
    &&& a.end == b.end
    &&& a.selection_start == b.selection_start
    &&& a.selection_end == b.selection_end
    &&& a.children@.len() == b.children@.len()
    &&& forall|i: int|
        0 <= i < a.children@.len() ==> same_symbol(#[trigger] a.children@[i], b.children@[i])
}

/// A symbol comes over the wire as it was sent, with all its children.
pub proof fn document_symbol_round_trip(
    symbol: DocumentSymbol,
    message: ProtoDocumentSymbol,
    received: DocumentSymbol,
)
    requires
        is_wire(message, symbol),
        is_meant(received, message),
    ensures
        same_symbol(symbol, received),
    decreases symbol,
{
    children_round_trip(symbol, message.children@, received.children@, symbol.children@.len());
}

proof fn children_round_trip(
    symbol: DocumentSymbol,
    messages: Seq<ProtoDocumentSymbol>,
    received: Seq<DocumentSymbol>,
    n: nat,
)
    requires
        n <= symbol.children@.len(),
        messages.len() == n,
        forall|i: int| 0 <= i < n ==> is_wire(#[trigger] messages[i], symbol.children@[i]),
        are_meant(received, messages),
    ensures
        received.len() == n,
        forall|i: int| 0 <= i < n ==> same_symbol(#[trigger] symbol.children@[i], received[i]),
    decreases symbol, n,
{
    if n > 0 {
        let last = (n - 1) as int;
        assert(is_wire(messages[last], symbol.children@[last]));
        assert(wire_error(messages[last]) is None);
        let earlier = messages.subrange(0, last);
        assert forall|i: int| 0 <= i < last implies is_wire(
            #[trigger] earlier[i],
            symbol.children@[i],
        ) by {
            assert(earlier[i] == messages[i]);
        }
        children_round_trip(symbol, earlier, received.drop_last(), (n - 1) as nat);
        document_symbol_round_trip(symbol.children@[last], messages[last], received.last());
        assert forall|i: int| 0 <= i < n implies same_symbol(
            #[trigger] symbol.children@[i],
            received[i],
        ) by {
            if i < last {
                assert(received[i] == received.drop_last()[i]);
            }
        }
    }
}
/// A symbol of a list is taken over as a whole, without children.
pub proof fn listed_symbols_are_taken_over(
    list: Vec<SymbolInformation>,
    symbols: Vec<DocumentSymbol>,
    none: Vec<DocumentSymbol>,
    i: int,
)
    requires
        call_ensures(
            document_symbols_from_lsp,
            (&Some(DocumentSymbolResponse::Flat(list)),),
            symbols,
        ),
        call_ensures(document_symbols_from_lsp, (&None,), none),
        0 <= i < list@.len(),
    ensures
        none@.len() == 0,
        symbols@.len() == list@.len(),
        symbols@[i].name == list@[i].name,
        symbols@[i].kind == list@[i].kind,
        symbols@[i].start == list@[i].start && symbols@[i].end == list@[i].end,
        symbols@[i].selection_start == list@[i].start && symbols@[i].selection_end == list@[i].end,
        symbols@[i].children@.len() == 0,
{
    assert(is_flat(symbols@[i], list@[i]));
}

/// A symbol of a tree is taken over with its selection and its children, and each child in the
/// same way.
pub proof fn nested_symbols_are_taken_over(
    list: Vec<LspDocumentSymbol>,
    symbols: Vec<DocumentSymbol>,
    i: int,
    k: int,
)
    requires
        call_ensures(
            document_symbols_from_lsp,
            (&Some(DocumentSymbolResponse::Nested(list)),),
            symbols,
        ),
        0 <= i < list@.len(),
    ensures
        symbols@.len() == list@.len(),
        symbols@[i].name == list@[i].name,
        symbols@[i].kind == list@[i].kind,
        symbols@[i].start == list@[i].start && symbols@[i].end == list@[i].end,
        symbols@[i].selection_start == list@[i].selection_start && symbols@[i].selection_end
            == list@[i].selection_end,
        list@[i].children is None ==> symbols@[i].children@.len() == 0,
        list@[i].children matches Some(children) ==> {
            &&& symbols@[i].children@.len() == children@.len()
            &&& 0 <= k < children@.len() ==> {
                &&& symbols@[i].children@[k].name == children@[k].name
                &&& symbols@[i].children@[k].kind == children@[k].kind
                &&& symbols@[i].children@[k].start == children@[k].start
                &&& symbols@[i].children@[k].end == children@[k].end
                &&& symbols@[i].children@[k].selection_start == children@[k].selection_start
                &&& symbols@[i].children@[k].selection_end == children@[k].selection_end
            }
        },
{
    reveal_with_fuel(is_nested, 3);
    assert(is_nested(symbols@[i], list@[i]));
    if list@[i].children is Some {
        let children = list@[i].children->0;
        if 0 <= k < children@.len() {
            assert(is_nested(symbols@[i].children@[k], children@[k]));
        }
    }
}

/// Symbols arrive as they were sent, with all their children.
pub proof fn symbols_arrive_as_sent(
    sent: Vec<DocumentSymbol>,
    messages: Vec<ProtoDocumentSymbol>,
    received: Result<Vec<DocumentSymbol>, SymbolWireError>,
    i: int,
    k: int,
)
    requires
        call_ensures(document_symbols_to_proto, (&sent,), messages),
        call_ensures(document_symbols_from_proto, (&messages,), received),
        received is Ok,
        0 <= i < sent@.len(),
    ensures
        received->Ok_0@.len() == sent@.len(),
        received->Ok_0@[i].name == sent@[i].name,
        received->Ok_0@[i].kind == sent@[i].kind,
        received->Ok_0@[i].start == sent@[i].start,
        received->Ok_0@[i].end == sent@[i].end,
        received->Ok_0@[i].selection_start == sent@[i].selection_start,
        received->Ok_0@[i].selection_end == sent@[i].selection_end,
        received->Ok_0@[i].children@.len() == sent@[i].children@.len(),
        0 <= k < sent@[i].children@.len() ==> received->Ok_0@[i].children@[k].name
            == sent@[i].children@[k].name && received->Ok_0@[i].children@[k].start
            == sent@[i].children@[k].start && received->Ok_0@[i].children@[k].kind
            == sent@[i].children@[k].kind,
        same_symbol(sent@[i], received->Ok_0@[i]),
{
    assert(is_wire(messages@[i], sent@[i]));
    assert(is_meant(received->Ok_0@[i], messages@[i]));
    document_symbol_round_trip(sent@[i], messages@[i], received->Ok_0@[i]);
    reveal_with_fuel(same_symbol, 3);
    if 0 <= k < sent@[i].children@.len() {
        assert(same_symbol(sent@[i].children@[k], received->Ok_0@[i].children@[k]));
    }
}

/// A symbol needs all of its places; the first that is missing is reported.
pub proof fn symbols_need_their_places(
    messages: Vec<ProtoDocumentSymbol>,
    symbols: Result<Vec<DocumentSymbol>, SymbolWireError>,
)
    requires
        call_ensures(document_symbols_from_proto, (&messages,), symbols),
        messages@.len() == 1,
    ensures
        ({
            let message = messages@[0];
            &&& message.start is None ==> symbols is Err && symbols->Err_0 is InvalidStart
            &&& message.start is Some && message.end is None ==> symbols is Err && symbols->Err_0
                is InvalidEnd
            &&& message.start is Some && message.end is Some && message.selection_start is None
                ==> symbols is Err && symbols->Err_0 is InvalidSelectionStart
            &&& message.start is Some && message.end is Some && message.selection_start is Some
                && message.selection_end is None ==> symbols is Err && symbols->Err_0
                is InvalidSelectionEnd
            &&& message.start is Some && message.end is Some && message.selection_start is Some
                && message.selection_end is Some ==> symbols is Ok
        }),
{
    reveal_with_fuel(first_error, 2);
    assert(messages@.drop_last().len() == 0);
    assert(messages@.last() == messages@[0]);
}
/// Each error is called by what is wrong.
pub proof fn symbol_errors_say_what_is_wrong(error: SymbolWireError, message: &'static str)
    requires
        call_ensures(SymbolWireError::message, (&error,), message),
    ensures
        error is InvalidStart ==> message@ == "invalid start"@,
        error is InvalidEnd ==> message@ == "invalid end"@,
        error is InvalidSelectionStart ==> message@ == "invalid selection start"@,
        error is InvalidSelectionEnd ==> message@ == "invalid selection end"@,
{
}

} // verus!
