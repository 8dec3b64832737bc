use vstd::prelude::*;
use crate::domain::money::{Currency, currency_code};
use crate::domain::transaction::{Category, TransactionKind};
use crate::text::{ascii_lowercase, ascii_uppercase, chars_spell, same_text, to_ascii_lowercase, to_ascii_uppercase};

verus! {

/// The stored code of a transaction kind.
pub open spec fn kind_code(kind: TransactionKind) -> Seq<char> {
    match kind {
        TransactionKind::Income => "income"@,
        TransactionKind::Expense => "expense"@,
        TransactionKind::ExpenseRefund => "expense_refund"@,
    }
}

/// The stored code of a category.
pub open spec fn category_code(category: Category) -> Seq<char> {
    match category {
        Category::Food => "food"@,
        Category::Transportation => "transportation"@,
        Category::Entertainment => "entertainment"@,
        Category::Necessary => "necessary"@,
        Category::Health => "health"@,
        Category::Education => "education"@,
        Category::Shopping => "shopping"@,
        Category::Travel => "travel"@,
        Category::Housing => "housing"@,
        Category::Salary => "salary"@,
        Category::Sale => "sale"@,
        Category::Family => "family"@,
        Category::Investment => "investment"@,
        Category::Other => "other"@,
    }
}

/// The currency whose code is exactly `code`.
pub open spec fn currency_named(code: Seq<char>) -> Option<Currency> {
    if code == currency_code(Currency::Cny) {
        Some(Currency::Cny)
    } else if code == currency_code(Currency::Usd) {
        Some(Currency::Usd)
    } else if code == currency_code(Currency::Eur) {
        Some(Currency::Eur)
    } else if code == currency_code(Currency::Hkd) {
        Some(Currency::Hkd)
    } else if code == currency_code(Currency::Myr) {
        Some(Currency::Myr)
    } else {
        None
    }
}

/// The transaction kind whose code is exactly `code`.
pub open spec fn kind_named(code: Seq<char>) -> Option<TransactionKind> {
    if code == kind_code(TransactionKind::Income) {
        Some(TransactionKind::Income)
    } else if code == kind_code(TransactionKind::Expense) {
        Some(TransactionKind::Expense)
    } else if code == kind_code(TransactionKind::ExpenseRefund) {
        Some(TransactionKind::ExpenseRefund)
    } else {
        None
    }
}

/// The category whose code is exactly `code`.
pub open spec fn category_named(code: Seq<char>) -> Option<Category> {
    if code == category_code(Category::Food) {
        Some(Category::Food)
    } else if code == category_code(Category::Transportation) {
        Some(Category::Transportation)
    } else if code == category_code(Category::Entertainment) {
        Some(Category::Entertainment)
    } else if code == category_code(Category::Necessary) {
        Some(Category::Necessary)
    } else if code == category_code(Category::Health) {
        Some(Category::Health)
    } else if code == category_code(Category::Education) {
        Some(Category::Education)
    } else if code == category_code(Category::Shopping) {
        Some(Category::Shopping)
    } else if code == category_code(Category::Travel) {
        Some(Category::Travel)
    } else if code == category_code(Category::Housing) {
        Some(Category::Housing)
    } else if code == category_code(Category::Salary) {
        Some(Category::Salary)
    } else if code == category_code(Category::Sale) {
        Some(Category::Sale)
    } else if code == category_code(Category::Family) {
        Some(Category::Family)
    } else if code == category_code(Category::Investment) {
        Some(Category::Investment)
    } else if code == category_code(Category::Other) {
        Some(Category::Other)
    } else {
        None
    }
}

/// The stored code of a transaction kind.
pub fn kind_code_text(kind: TransactionKind) -> (r: &'static str)
    ensures
        r@ == kind_code(kind),
{
    match kind {
        TransactionKind::Income => "income",
        TransactionKind::Expense => "expense",
        TransactionKind::ExpenseRefund => "expense_refund",
    }
}

/// The stored code of a category.
pub fn category_code_text(category: Category) -> (r: &'static str)
    ensures
        r@ == category_code(category),
{
    match category {
        Category::Food => "food",
        Category::Transportation => "transportation",
        Category::Entertainment => "entertainment",
        Category::Necessary => "necessary",
        Category::Health => "health",
        Category::Education => "education",
        Category::Shopping => "shopping",
        Category::Travel => "travel",
        Category::Housing => "housing",
        Category::Salary => "salary",
        Category::Sale => "sale",
        Category::Family => "family",
        Category::Investment => "investment",
        Category::Other => "other",
    }
}

/// The currency whose code is exactly `code`.
pub fn currency_from_code(code: &str) -> (r: Option<Currency>)
    ensures
        r == currency_named(code@),
{
    if same_text(code, "CNY") {
        Some(Currency::Cny)
    } else if same_text(code, "USD") {
        Some(Currency::Usd)
    } else if same_text(code, "EUR") {
        Some(Currency::Eur)
    } else if same_text(code, "HKD") {
        Some(Currency::Hkd)
    } else if same_text(code, "MYR") {
        Some(Currency::Myr)
    } else {
        None
    }
}

/// The transaction kind whose code is exactly `code`.
pub fn kind_from_code(code: &str) -> (r: Option<TransactionKind>)
    ensures
        r == kind_named(code@),
{
    if same_text(code, "income") {
        Some(TransactionKind::Income)
    } else if same_text(code, "expense") {
        Some(TransactionKind::Expense)
    } else if same_text(code, "expense_refund") {
        Some(TransactionKind::ExpenseRefund)
    } else {
        None
    }
}

fn category_from_chars(code: &Vec<char>) -> (r: Option<Category>)
    ensures
        r == category_named(code@),
{
    if chars_spell(code, "food") {
        Some(Category::Food)
    } else if chars_spell(code, "transportation") {
        Some(Category::Transportation)
    } else if chars_spell(code, "entertainment") {
        Some(Category::Entertainment)
    } else if chars_spell(code, "necessary") {
        Some(Category::Necessary)
    } else if chars_spell(code, "health") {
        Some(Category::Health)
    } else if chars_spell(code, "education") {
        Some(Category::Education)
    } else if chars_spell(code, "shopping") {
        Some(Category::Shopping)
    } else if chars_spell(code, "travel") {
        Some(Category::Travel)
    } else if chars_spell(code, "housing") {
        Some(Category::Housing)
    } else if chars_spell(code, "salary") {
        Some(Category::Salary)
    } else if chars_spell(code, "sale") {
        Some(Category::Sale)
    } else if chars_spell(code, "family") {
        Some(Category::Family)
    } else if chars_spell(code, "investment") {
        Some(Category::Investment)
    } else if chars_spell(code, "other") {
        Some(Category::Other)
    } else {
        None
    }
}

fn currency_from_chars(code: &Vec<char>) -> (r: Option<Currency>)
    ensures
        r == currency_named(code@),
{
    if chars_spell(code, "CNY") {
        Some(Currency::Cny)
    } else if chars_spell(code, "USD") {
        Some(Currency::Usd)
    } else if chars_spell(code, "EUR") {
        Some(Currency::Eur)
    } else if chars_spell(code, "HKD") {
        Some(Currency::Hkd)
    } else if chars_spell(code, "MYR") {
        Some(Currency::Myr)
    } else {
        None
    }
}

fn kind_from_chars(code: &Vec<char>) -> (r: Option<TransactionKind>)
    ensures
        r == kind_named(code@),
{
    if chars_spell(code, "income") {
        Some(TransactionKind::Income)
    } else if chars_spell(code, "expense") {
        Some(TransactionKind::Expense)
    } else if chars_spell(code, "expense_refund") {
        Some(TransactionKind::ExpenseRefund)
    } else {
        None
    }
}

/// The category whose code is exactly `code`.
pub fn category_from_code(code: &str) -> (r: Option<Category>)
    ensures
        r == category_named(code@),
{
    let chars = crate::text::text_chars(code);
    category_from_chars(&chars)
}

/// The currency whose code is `code` in any letter case.
pub fn currency_from_code_any_case(code: &str) -> (r: Option<Currency>)
    ensures
        r == currency_named(ascii_uppercase(code@)),
{
    let upper = to_ascii_uppercase(code);
    currency_from_chars(&upper)
}

/// The transaction kind whose code is `code` in any letter case.
pub fn kind_from_code_any_case(code: &str) -> (r: Option<TransactionKind>)
    ensures
        r == kind_named(ascii_lowercase(code@)),
{
    let lower = to_ascii_lowercase(code);
    kind_from_chars(&lower)
}

/// The category whose code is `code` in any letter case.
pub fn category_from_code_any_case(code: &str) -> (r: Option<Category>)
    ensures
        r == category_named(ascii_lowercase(code@)),
{
    let lower = to_ascii_lowercase(code);
    category_from_chars(&lower)
}

/// Reading a kind's code gives the kind back.
pub proof fn law_kind_code_round_trip(value: TransactionKind)
    ensures
        kind_named(kind_code(value)) == Some(value),
{
    reveal_strlit("income");
    reveal_strlit("expense");
    reveal_strlit("expense_refund");
    assert(kind_code(TransactionKind::Income).len() == 6 && kind_code(TransactionKind::Income)[0] == 'i');
    assert(kind_code(TransactionKind::Expense).len() == 7 && kind_code(TransactionKind::Expense)[0] == 'e');
    assert(kind_code(TransactionKind::ExpenseRefund).len() == 14 && kind_code(TransactionKind::ExpenseRefund)[0] == 'e');
}

/// Reading a currency's code gives the currency back.
pub proof fn law_currency_code_round_trip(value: Currency)
    ensures
        currency_named(currency_code(value)) == Some(value),
{
    reveal_strlit("CNY");
    reveal_strlit("USD");
    reveal_strlit("EUR");
    reveal_strlit("HKD");
    reveal_strlit("MYR");
    assert(currency_code(Currency::Cny).len() == 3 && currency_code(Currency::Cny)[0] == 'C');
    assert(currency_code(Currency::Usd).len() == 3 && currency_code(Currency::Usd)[0] == 'U');
    assert(currency_code(Currency::Eur).len() == 3 && currency_code(Currency::Eur)[0] == 'E');
    assert(currency_code(Currency::Hkd).len() == 3 && currency_code(Currency::Hkd)[0] == 'H');
    assert(currency_code(Currency::Myr).len() == 3 && currency_code(Currency::Myr)[0] == 'M');
}

/// Reading a category's code gives the category back.
pub proof fn law_category_code_round_trip(value: Category)
    ensures
        category_named(category_code(value)) == Some(value),
{
    reveal_strlit("food");
    reveal_strlit("transportation");
    reveal_strlit("entertainment");
    reveal_strlit("necessary");
    reveal_strlit("health");
    reveal_strlit("education");
    reveal_strlit("shopping");
    reveal_strlit("travel");
    reveal_strlit("housing");
    reveal_strlit("salary");
    reveal_strlit("sale");
    reveal_strlit("family");
    reveal_strlit("investment");
    reveal_strlit("other");
    assert(category_code(Category::Food).len() == 4 && category_code(Category::Food)[0] == 'f');
    assert(category_code(Category::Transportation).len() == 14 && category_code(Category::Transportation)[0] == 't');
    assert(category_code(Category::Entertainment).len() == 13 && category_code(Category::Entertainment)[0] == 'e');
    assert(category_code(Category::Necessary).len() == 9 && category_code(Category::Necessary)[0] == 'n');
    assert(category_code(Category::Health).len() == 6 && category_code(Category::Health)[0] == 'h');
    assert(category_code(Category::Education).len() == 9 && category_code(Category::Education)[0] == 'e');
    assert(category_code(Category::Shopping).len() == 8 && category_code(Category::Shopping)[0] == 's');
    assert(category_code(Category::Travel).len() == 6 && category_code(Category::Travel)[0] == 't');
    assert(category_code(Category::Housing).len() == 7 && category_code(Category::Housing)[0] == 'h');
    assert(category_code(Category::Salary).len() == 6 && category_code(Category::Salary)[0] == 's');
    assert(category_code(Category::Sale).len() == 4 && category_code(Category::Sale)[0] == 's');
    assert(category_code(Category::Family).len() == 6 && category_code(Category::Family)[0] == 'f');
    assert(category_code(Category::Investment).len() == 10 && category_code(Category::Investment)[0] == 'i');
    assert(category_code(Category::Other).len() == 5 && category_code(Category::Other)[0] == 'o');
}

} // verus!
