//! Position conversion (for example MIS to CNC) and the GTT trigger form.
use vstd::prelude::*;
use crate::orders::{Form, form_view};
use crate::text::{decimal, decimal_string};

verus! {

/// Parameters of a position conversion.
#[derive(Debug, Clone, Copy)]
pub struct ConvertPositionParams<'a> {
    pub exchange: &'a str,
    pub tradingsymbol: &'a str,
    /// `BUY` or `SELL`.
    pub transaction_type: &'a str,
    /// `day` or `overnight`.
    pub position_type: &'a str,
    pub quantity: u32,
    pub old_product: &'a str,
    pub new_product: &'a str,
}

impl<'a> ConvertPositionParams<'a> {
    /// The request form: every field, in declaration order.
    pub fn form(&self) -> (f: Form)
        ensures
            form_view(f@) == seq![
                ("exchange"@, self.exchange@),
                ("tradingsymbol"@, self.tradingsymbol@),
                ("transaction_type"@, self.transaction_type@),
                ("position_type"@, self.position_type@),
                ("quantity"@, decimal(self.quantity as nat)),
                ("old_product"@, self.old_product@),
                ("new_product"@, self.new_product@),
            ],
    {
        let mut f: Form = Vec::new();
        f.push(("exchange", self.exchange.to_owned()));
        f.push(("tradingsymbol", self.tradingsymbol.to_owned()));
        f.push(("transaction_type", self.transaction_type.to_owned()));
        f.push(("position_type", self.position_type.to_owned()));
        f.push(("quantity", decimal_string(self.quantity as u64)));
        f.push(("old_product", self.old_product.to_owned()));
        f.push(("new_product", self.new_product.to_owned()));
        assert(form_view(f@) =~= seq![
            ("exchange"@, self.exchange@),
            ("tradingsymbol"@, self.tradingsymbol@),
            ("transaction_type"@, self.transaction_type@),
            ("position_type"@, self.position_type@),
            ("quantity"@, decimal(self.quantity as nat)),
            ("old_product"@, self.old_product@),
            ("new_product"@, self.new_product@),
        ]);
        f
    }
}

/// The form that places a GTT trigger: its type (`single` or `two-leg`)
/// and the condition and orders, each already in JSON text.
pub fn gtt_form(gtt_type: &str, condition_json: String, orders_json: String) -> (f: Form)
    ensures
        form_view(f@) == seq![
            ("type"@, gtt_type@),
            ("condition"@, condition_json@),
            ("orders"@, orders_json@),
        ],
{
    let ghost c = condition_json@;
    let ghost o = orders_json@;
    let mut f: Form = Vec::new();
    f.push(("type", gtt_type.to_owned()));
    f.push(("condition", condition_json));
    f.push(("orders", orders_json));
    assert(form_view(f@) =~= seq![("type"@, gtt_type@), ("condition"@, c), ("orders"@, o)]);
    f
}

} // verus!
