use vstd::prelude::*;
use crate::text::chars_of;
use crate::text::string_of;

verus! {

/// Why an operation on the store was refused.
#[derive(Clone, Debug, PartialEq, Eq)]
pub enum ModelError {
    /// A user tried to follow themselves.
    CannotFollowSelf,
    /// A user tried to block themselves.
    CannotBlockSelf,
    /// The username belongs to another account already.
    UsernameTaken,
    /// Unknown username, no password set, or a wrong password.
    InvalidCredentials,
    /// The password hasher failed, with its message.
    HashFailed(String),
    /// The session token handed out belongs to a session already.
    TokenTaken,
    /// A quantity of zero or less.
    QuantityNotPositive,
    /// No product has this id.
    ProductNotFound(i64),
    /// The product holds fewer items than asked for.
    InsufficientStock { product_id: i64, stock: i64 },
    /// At checkout: the product of a cart item is gone.
    ProductGone(i64),
    /// At checkout: the product, named, holds fewer items than the cart asks for.
    OutOfStock { name: String, stock: i64 },
    /// Checkout of an empty cart.
    CartEmpty,
    /// The user has a shop already.
    ShopExists,
    /// Only the group's owner or an admin may edit it.
    NotGroupAdmin,
    /// Only the group's owner may delete it.
    NotGroupOwner,
    /// The user is a member of the group already.
    AlreadyMember,
    /// The owner of a group cannot leave it.
    OwnerCannotLeave,
    /// Only members may post in a group.
    NotGroupMember,
    /// Only the author or the group's owner may delete a group post.
    NotAuthorOrOwner,
    /// A table has handed out its last id.
    TableFull,
    /// A counter or a price would leave the range of `i64`.
    Overflow,
}

/// The digit character for `d`, from 0 to 9.
pub open spec fn digit_text(d: int) -> char {
    if d == 0 {
        '0'
    } else if d == 1 {
        '1'
    } else if d == 2 {
        '2'
    } else if d == 3 {
        '3'
    } else if d == 4 {
        '4'
    } else if d == 5 {
        '5'
    } else if d == 6 {
        '6'
    } else if d == 7 {
        '7'
    } else if d == 8 {
        '8'
    } else {
        '9'
    }
}

/// The decimal digits of a number of zero or more, without leading zeros.
pub open spec fn digits_of(n: nat) -> Seq<char>
    decreases n,
{
    if n < 10 {
        seq![digit_text(n as int)]
    } else {
        digits_of(n / 10) + seq![digit_text((n % 10) as int)]
    }
}

/// The number as `format!("{}", n)` writes it.
pub open spec fn decimal(n: int) -> Seq<char> {
    if n < 0 {
        seq!['-'] + digits_of((-n) as nat)
    } else {
        digits_of(n as nat)
    }
}

fn digit_char_of(d: u64) -> (c: char)
    requires
        d < 10,
    ensures
        c == digit_text(d as int),
{
    if d == 0 {
        '0'
    } else if d == 1 {
        '1'
    } else if d == 2 {
        '2'
    } else if d == 3 {
        '3'
    } else if d == 4 {
        '4'
    } else if d == 5 {
        '5'
    } else if d == 6 {
        '6'
    } else if d == 7 {
        '7'
    } else if d == 8 {
        '8'
    } else {
        '9'
    }
}

fn push_digits(out: &mut Vec<char>, m: u64)
    ensures
        final(out)@ == old(out)@ + digits_of(m as nat),
    decreases m,
{
    if m < 10 {
        out.push(digit_char_of(m));
    } else {
        push_digits(out, m / 10);
        out.push(digit_char_of(m % 10));
    }
}

/// Appends the number written in decimal.
pub fn push_decimal(out: &mut Vec<char>, n: i64)
    ensures
        final(out)@ == old(out)@ + decimal(n as int),
{
    if n < 0 {
        out.push('-');
        let m: u64 = if n == i64::MIN { 9223372036854775808 } else { (-n) as u64 };
        let ghost mid = out@;
        push_digits(out, m);
        assert(out@ =~= old(out)@ + decimal(n as int));
    } else {
        push_digits(out, n as u64);
    }
}

/// Appends the text.
pub fn push_text(out: &mut Vec<char>, s: &str)
    ensures
        final(out)@ == old(out)@ + s@,
{
    let cs = chars_of(s);
    let ghost start = out@;
    let mut i: usize = 0;
    while i < cs.len()
        invariant
            i <= cs@.len(),
            cs@ == s@,
            out@ == start + cs@.take(i as int),
        decreases cs@.len() - i,
    {
        out.push(cs[i]);
        assert(cs@.take(i + 1) =~= cs@.take(i as int).push(cs@[i as int]));
        i = i + 1;
    }
    assert(cs@.take(cs@.len() as int) =~= cs@);
}

impl ModelError {
    /// The message the error is shown with.
    pub open spec fn text(&self) -> Seq<char> {
        match *self {
            ModelError::CannotFollowSelf => "不能追蹤自己"@,
            ModelError::CannotBlockSelf => "不能封鎖自己"@,
            ModelError::UsernameTaken => "UNIQUE constraint failed: users.username"@,
            ModelError::InvalidCredentials => "帳號或密碼錯誤"@,
            ModelError::HashFailed(m) => m@,
            ModelError::TokenTaken => "UNIQUE constraint failed: sessions.token"@,
            ModelError::QuantityNotPositive => "數量必須大於 0"@,
            ModelError::ProductNotFound(_) => "商品不存在"@,
            ModelError::InsufficientStock { stock, .. } => "庫存不足（剩 "@ + decimal(stock as int) + "）"@,
            ModelError::ProductGone(id) => "商品 "@ + decimal(id as int) + " 已不存在"@,
            ModelError::OutOfStock { name, stock } => "商品「"@ + name@ + "」庫存不足（剩 "@ + decimal(
                stock as int,
            ) + "）"@,
            ModelError::CartEmpty => "購物車是空的"@,
            ModelError::ShopExists => "該使用者已經有商店了"@,
            ModelError::NotGroupAdmin => "只有社團管理員可以編輯"@,
            ModelError::NotGroupOwner => "只有社團創建者可以刪除"@,
            ModelError::AlreadyMember => "已經加入此社團"@,
            ModelError::OwnerCannotLeave => "創建者不能退出社團，請刪除社團"@,
            ModelError::NotGroupMember => "只有社團成員可以發文"@,
            ModelError::NotAuthorOrOwner => "只有作者或社團創建者可以刪除"@,
            ModelError::TableFull => "database or disk is full"@,
            ModelError::Overflow => "integer overflow"@,
        }
    }

    /// The message the error is shown with; see `text`.
    pub fn message(&self) -> (r: String)
        ensures
            r@ == self.text(),
    {
        let mut out: Vec<char> = Vec::new();
        match self {
            ModelError::CannotFollowSelf => push_text(&mut out, "不能追蹤自己"),
            ModelError::CannotBlockSelf => push_text(&mut out, "不能封鎖自己"),
            ModelError::UsernameTaken => push_text(&mut out, "UNIQUE constraint failed: users.username"),
            ModelError::InvalidCredentials => push_text(&mut out, "帳號或密碼錯誤"),
            ModelError::HashFailed(m) => push_text(&mut out, m.as_str()),
            ModelError::TokenTaken => push_text(&mut out, "UNIQUE constraint failed: sessions.token"),
            ModelError::QuantityNotPositive => push_text(&mut out, "數量必須大於 0"),
            ModelError::ProductNotFound(_) => push_text(&mut out, "商品不存在"),
            ModelError::InsufficientStock { stock, .. } => {
                push_text(&mut out, "庫存不足（剩 ");
                push_decimal(&mut out, *stock);
                push_text(&mut out, "）");
            },
            ModelError::ProductGone(id) => {
                push_text(&mut out, "商品 ");
                push_decimal(&mut out, *id);
                push_text(&mut out, " 已不存在");
            },
            ModelError::OutOfStock { name, stock } => {
                push_text(&mut out, "商品「");
                push_text(&mut out, name.as_str());
                push_text(&mut out, "」庫存不足（剩 ");
                push_decimal(&mut out, *stock);
                push_text(&mut out, "）");
            },
            ModelError::CartEmpty => push_text(&mut out, "購物車是空的"),
            ModelError::ShopExists => push_text(&mut out, "該使用者已經有商店了"),
            ModelError::NotGroupAdmin => push_text(&mut out, "只有社團管理員可以編輯"),
            ModelError::NotGroupOwner => push_text(&mut out, "只有社團創建者可以刪除"),
            ModelError::AlreadyMember => push_text(&mut out, "已經加入此社團"),
            ModelError::OwnerCannotLeave => push_text(&mut out, "創建者不能退出社團，請刪除社團"),
            ModelError::NotGroupMember => push_text(&mut out, "只有社團成員可以發文"),
            ModelError::NotAuthorOrOwner => push_text(&mut out, "只有作者或社團創建者可以刪除"),
            ModelError::TableFull => push_text(&mut out, "database or disk is full"),
            ModelError::Overflow => push_text(&mut out, "integer overflow"),
        }
        assert(out@ =~= self.text());
        string_of(&out)
    }
}

} // verus!
