//! Payees and payments to them.
use vstd::prelude::*;

verus! {

/// Something that can be paid: it has a name and a bank account number.
pub trait Payable {
    fn name(&self) -> &str;

    fn iban(&self) -> &str;
}

#[derive(Debug, PartialEq)]
pub struct Restaurant<'a> {
    pub name: &'a str,
    pub iban: &'a str,
}

impl<'a> Payable for Restaurant<'a> {
    fn name(&self) -> (r: &str)
        ensures
            r@ == self.name@,
    {
        self.name
    }

    fn iban(&self) -> (r: &str)
        ensures
            r@ == self.iban@,
    {
        self.iban
    }
}

/// An amount, in minor units of `currency`, owed to a payee.
pub struct Payment<'a> {
    pub payee: &'a dyn Payable,
    pub amount: i64,
    pub currency: &'a str,
}

} // verus!
