//! The binary operators of the language, their names and their symbols.

use vstd::prelude::*;
use vstd::string::*;
use crate::text::{same_text, stamp};

verus! {

/// A binary operator: arithmetic, comparison or logical.
#[derive(Debug, Clone, Copy, PartialEq, Eq)]
pub enum BinaryOp {
    Add,
    Sub,
    Mul,
    Div,
    Rem,
    Eq,
    Neq,
    Lt,
    Gt,
    Lte,
    Gte,
    And,
    Or,
}

impl BinaryOp {
    /// The name under which a document spells this operator.
    pub open spec fn name(self) -> Seq<char> {
        match self {
            BinaryOp::Add => "Add"@,
            BinaryOp::Sub => "Sub"@,
            BinaryOp::Mul => "Mul"@,
            BinaryOp::Div => "Div"@,
            BinaryOp::Rem => "Rem"@,
            BinaryOp::Eq => "Eq"@,
            BinaryOp::Neq => "Neq"@,
            BinaryOp::Lt => "Lt"@,
            BinaryOp::Gt => "Gt"@,
            BinaryOp::Lte => "Lte"@,
            BinaryOp::Gte => "Gte"@,
            BinaryOp::And => "And"@,
            BinaryOp::Or => "Or"@,
        }
    }

    /// The operator that a name spells, if any. The match is exact and
    /// case-sensitive.
    pub open spec fn named(s: Seq<char>) -> Option<BinaryOp> {
        if s == "Add"@ {
            Some(BinaryOp::Add)
        } else if s == "Sub"@ {
            Some(BinaryOp::Sub)
        } else if s == "Mul"@ {
            Some(BinaryOp::Mul)
        } else if s == "Div"@ {
            Some(BinaryOp::Div)
        } else if s == "Rem"@ {
            Some(BinaryOp::Rem)
        } else if s == "Eq"@ {
            Some(BinaryOp::Eq)
        } else if s == "Neq"@ {
            Some(BinaryOp::Neq)
        } else if s == "Lt"@ {
            Some(BinaryOp::Lt)
        } else if s == "Gt"@ {
            Some(BinaryOp::Gt)
        } else if s == "Lte"@ {
            Some(BinaryOp::Lte)
        } else if s == "Gte"@ {
            Some(BinaryOp::Gte)
        } else if s == "And"@ {
            Some(BinaryOp::And)
        } else if s == "Or"@ {
            Some(BinaryOp::Or)
        } else {
            None
        }
    }

    /// The symbol that the language's concrete syntax writes for this
    /// operator.
    pub open spec fn symbol(self) -> Seq<char> {
        match self {
            BinaryOp::Add => "+"@,
            BinaryOp::Sub => "-"@,
            BinaryOp::Mul => "*"@,
            BinaryOp::Div => "/"@,
            BinaryOp::Rem => "%"@,
            BinaryOp::Eq => "=="@,
            BinaryOp::Neq => "!="@,
            BinaryOp::Lt => "<"@,
            BinaryOp::Gt => ">"@,
            BinaryOp::Lte => "<="@,
            BinaryOp::Gte => ">="@,
            BinaryOp::And => "&&"@,
            BinaryOp::Or => "||"@,
        }
    }

    /// The operator's symbol as a string slice.
    pub fn as_str(&self) -> (s: &'static str)
        ensures
            s@ == self.symbol(),
    {
        match self {
            BinaryOp::Add => "+",
            BinaryOp::Sub => "-",
            BinaryOp::Mul => "*",
            BinaryOp::Div => "/",
            BinaryOp::Rem => "%",
            BinaryOp::Eq => "==",
            BinaryOp::Neq => "!=",
            BinaryOp::Lt => "<",
            BinaryOp::Gt => ">",
            BinaryOp::Lte => "<=",
            BinaryOp::Gte => ">=",
            BinaryOp::And => "&&",
            BinaryOp::Or => "||",
        }
    }

    /// The operator's symbol as an owned string.
    pub fn to_string(&self) -> (s: String)
        ensures
            s@ == self.symbol(),
    {
        self.as_str().to_owned()
    }

    /// Reads an operator from its name.
    pub fn from_str(s: &str) -> (result: Option<BinaryOp>)
        ensures
            result == BinaryOp::named(s@),
    {
        if same_text(s, "Add") {
            Some(BinaryOp::Add)
        } else if same_text(s, "Sub") {
            Some(BinaryOp::Sub)
        } else if same_text(s, "Mul") {
            Some(BinaryOp::Mul)
        } else if same_text(s, "Div") {
            Some(BinaryOp::Div)
        } else if same_text(s, "Rem") {
            Some(BinaryOp::Rem)
        } else if same_text(s, "Eq") {
            Some(BinaryOp::Eq)
        } else if same_text(s, "Neq") {
            Some(BinaryOp::Neq)
        } else if same_text(s, "Lt") {
            Some(BinaryOp::Lt)
        } else if same_text(s, "Gt") {
            Some(BinaryOp::Gt)
        } else if same_text(s, "Lte") {
            Some(BinaryOp::Lte)
        } else if same_text(s, "Gte") {
            Some(BinaryOp::Gte)
        } else if same_text(s, "And") {
            Some(BinaryOp::And)
        } else if same_text(s, "Or") {
            Some(BinaryOp::Or)
        } else {
            None
        }
    }
}

/// The stamps of the operators' names.
pub proof fn lemma_operator_names()
    ensures
        stamp("Add"@) == (3nat, 'A', 'd'),
        stamp("Sub"@) == (3nat, 'S', 'u'),
        stamp("Mul"@) == (3nat, 'M', 'u'),
        stamp("Div"@) == (3nat, 'D', 'i'),
        stamp("Rem"@) == (3nat, 'R', 'e'),
        stamp("Eq"@) == (2nat, 'E', 'q'),
        stamp("Neq"@) == (3nat, 'N', 'e'),
        stamp("Lt"@) == (2nat, 'L', 't'),
        stamp("Gt"@) == (2nat, 'G', 't'),
        stamp("Lte"@) == (3nat, 'L', 't'),
        stamp("Gte"@) == (3nat, 'G', 't'),
        stamp("And"@) == (3nat, 'A', 'n'),
        stamp("Or"@) == (2nat, 'O', 'r'),
{
    reveal_strlit("Add");
    reveal_strlit("Sub");
    reveal_strlit("Mul");
    reveal_strlit("Div");
    reveal_strlit("Rem");
    reveal_strlit("Eq");
    reveal_strlit("Neq");
    reveal_strlit("Lt");
    reveal_strlit("Gt");
    reveal_strlit("Lte");
    reveal_strlit("Gte");
    reveal_strlit("And");
    reveal_strlit("Or");
}

/// Every operator is the one that its name spells, so no two operators
/// share a name.
pub proof fn operator_is_named(op: BinaryOp)
    ensures
        BinaryOp::named(op.name()) == Some(op),
{
    lemma_operator_names();
}

} // verus!
