//! The catalog's product record.

use vstd::prelude::*;

verus! {

/// A product row as the store holds it: id, name and price.
pub type ProductRow = (int, Seq<char>, int);

/// A product of the catalog; the id `-1` stands for "no such product".
#[derive(Debug)]
pub struct Product {
    pub id: i32,
    pub name: String,
    pub price: i32,
}

impl Product {
    pub fn new(id: i32, name: &str, price: i32) -> (r: Product)
        ensures
            r.id == id,
            r.name@ == name@,
            r.price == price,
    {
        Product { id, name: name.to_owned(), price }
    }

    /// Whether this product carries the fields of `row`.
    pub open spec fn has_row(&self, row: ProductRow) -> bool {
        &&& self.id as int == row.0
        &&& self.name@ == row.1
        &&& self.price as int == row.2
    }

    /// Whether this is the "not found" product.
    pub open spec fn is_absent(&self) -> bool {
        &&& self.id == -1
        &&& self.name@.len() == 0
        &&& self.price == 0
    }
}

impl Default for Product {
    fn default() -> (r: Product)
        ensures
            r.is_absent(),
    {
        Product { id: -1, name: String::new(), price: 0 }
    }
}

} // verus!
