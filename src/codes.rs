use vstd::prelude::*;

verus! {

/// Side of an order (tag 54).
#[derive(Clone, Copy, Debug, PartialEq, Eq, Structural)]
pub enum Side {
    Buy,
    Sell,
    BuyMinus,
    SellPlus,
    SellShort,
    SellShortExempt,
    Undisclosed,
    Cross,
    CrossShort,
    CrossShortExempt,
    AsDefined,
    Opposite,
    Subscribe,
    Redeem,
    Lend,
    Borrow,
}

/// Order type (tag 40).
#[derive(Clone, Copy, Debug, PartialEq, Eq, Structural)]
pub enum OrdType {
    Market,
    Limit,
    Stop,
    StopLimit,
    WithOrWithout,
    LimitOrBetter,
    LimitWithOrWithout,
    OnBasis,
    PreviouslyQuoted,
    PreviouslyIndicated,
    ForexSwap,
    Funari,
    MarketIfTouched,
    MarketWithLeftOverAsLimit,
    PreviousFundValuationPoint,
    NextFundValuationPoint,
    Pegged,
}

/// Time in force (tag 59).
#[derive(Clone, Copy, Debug, PartialEq, Eq, Structural)]
pub enum TimeInForce {
    Day,
    GoodTillCancel,
    AtTheOpening,
    ImmediateOrCancel,
    FillOrKill,
    GoodTillCrossing,
    GoodTillDate,
    AtTheClose,
}

/// The number written for a side: its position in the protocol's list,
/// counting from 1.
pub open spec fn side_code(side: Side) -> nat {
    match side {
        Side::Buy => 1,
        Side::Sell => 2,
        Side::BuyMinus => 3,
        Side::SellPlus => 4,
        Side::SellShort => 5,
        Side::SellShortExempt => 6,
        Side::Undisclosed => 7,
        Side::Cross => 8,
        Side::CrossShort => 9,
        Side::CrossShortExempt => 10,
        Side::AsDefined => 11,
        Side::Opposite => 12,
        Side::Subscribe => 13,
        Side::Redeem => 14,
        Side::Lend => 15,
        Side::Borrow => 16,
    }
}

/// The protocol character of an order type.
pub open spec fn ord_type_code(order_type: OrdType) -> char {
    match order_type {
        OrdType::Market => '1',
        OrdType::Limit => '2',
        OrdType::Stop => '3',
        OrdType::StopLimit => '4',
        OrdType::WithOrWithout => '6',
        OrdType::LimitOrBetter => '7',
        OrdType::LimitWithOrWithout => '8',
        OrdType::OnBasis => '9',
        OrdType::PreviouslyQuoted => 'D',
        OrdType::PreviouslyIndicated => 'E',
        OrdType::ForexSwap => 'G',
        OrdType::Funari => 'I',
        OrdType::MarketIfTouched => 'J',
        OrdType::MarketWithLeftOverAsLimit => 'K',
        OrdType::PreviousFundValuationPoint => 'L',
        OrdType::NextFundValuationPoint => 'M',
        OrdType::Pegged => 'P',
    }
}

/// The protocol character of a time in force.
pub open spec fn time_in_force_code(tif: TimeInForce) -> char {
    match tif {
        TimeInForce::Day => '0',
        TimeInForce::GoodTillCancel => '1',
        TimeInForce::AtTheOpening => '2',
        TimeInForce::ImmediateOrCancel => '3',
        TimeInForce::FillOrKill => '4',
        TimeInForce::GoodTillCrossing => '5',
        TimeInForce::GoodTillDate => '6',
        TimeInForce::AtTheClose => '7',
    }
}

/// The number written for `side`.
pub fn side_as_int(side: Side) -> (r: u32)
    ensures
        r == side_code(side),
{
    match side {
        Side::Buy => 1,
        Side::Sell => 2,
        Side::BuyMinus => 3,
        Side::SellPlus => 4,
        Side::SellShort => 5,
        Side::SellShortExempt => 6,
        Side::Undisclosed => 7,
        Side::Cross => 8,
        Side::CrossShort => 9,
        Side::CrossShortExempt => 10,
        Side::AsDefined => 11,
        Side::Opposite => 12,
        Side::Subscribe => 13,
        Side::Redeem => 14,
        Side::Lend => 15,
        Side::Borrow => 16,
    }
}

/// The protocol character of `order_type`.
pub fn order_type_to_char(order_type: OrdType) -> (r: char)
    ensures
        r == ord_type_code(order_type),
{
    match order_type {
        OrdType::Market => '1',
        OrdType::Limit => '2',
        OrdType::Stop => '3',
        OrdType::StopLimit => '4',
        OrdType::WithOrWithout => '6',
        OrdType::LimitOrBetter => '7',
        OrdType::LimitWithOrWithout => '8',
        OrdType::OnBasis => '9',
        OrdType::PreviouslyQuoted => 'D',
        OrdType::PreviouslyIndicated => 'E',
        OrdType::ForexSwap => 'G',
        OrdType::Funari => 'I',
        OrdType::MarketIfTouched => 'J',
        OrdType::MarketWithLeftOverAsLimit => 'K',
        OrdType::PreviousFundValuationPoint => 'L',
        OrdType::NextFundValuationPoint => 'M',
        OrdType::Pegged => 'P',
    }
}

/// The protocol character of `tif`.
pub fn time_in_force_to_char(tif: TimeInForce) -> (r: char)
    ensures
        r == time_in_force_code(tif),
{
    match tif {
        TimeInForce::Day => '0',
        TimeInForce::GoodTillCancel => '1',
        TimeInForce::AtTheOpening => '2',
        TimeInForce::ImmediateOrCancel => '3',
        TimeInForce::FillOrKill => '4',
        TimeInForce::GoodTillCrossing => '5',
        TimeInForce::GoodTillDate => '6',
        TimeInForce::AtTheClose => '7',
    }
}

/// The protocol character of `order_type`, as text.
pub fn order_type_text(order_type: OrdType) -> (r: &'static str)
    ensures
        r@ == seq![ord_type_code(order_type)],
{
    match order_type {
        OrdType::Market => {
            proof {
                reveal_strlit("1");
            }
            "1"
        },
        OrdType::Limit => {
            proof {
                reveal_strlit("2");
            }
            "2"
        },
        OrdType::Stop => {
            proof {
                reveal_strlit("3");
            }
            "3"
        },
        OrdType::StopLimit => {
            proof {
                reveal_strlit("4");
            }
            "4"
        },
        OrdType::WithOrWithout => {
            proof {
                reveal_strlit("6");
            }
            "6"
        },
        OrdType::LimitOrBetter => {
            proof {
                reveal_strlit("7");
            }
            "7"
        },
        OrdType::LimitWithOrWithout => {
            proof {
                reveal_strlit("8");
            }
            "8"
        },
        OrdType::OnBasis => {
            proof {
                reveal_strlit("9");
            }
            "9"
        },
        OrdType::PreviouslyQuoted => {
            proof {
                reveal_strlit("D");
            }
            "D"
        },
        OrdType::PreviouslyIndicated => {
            proof {
                reveal_strlit("E");
            }
            "E"
        },
        OrdType::ForexSwap => {
            proof {
                reveal_strlit("G");
            }
            "G"
        },
        OrdType::Funari => {
            proof {
                reveal_strlit("I");
            }
            "I"
        },
        OrdType::MarketIfTouched => {
            proof {
                reveal_strlit("J");
            }
            "J"
        },
        OrdType::MarketWithLeftOverAsLimit => {
            proof {
                reveal_strlit("K");
            }
            "K"
        },
        OrdType::PreviousFundValuationPoint => {
            proof {
                reveal_strlit("L");
            }
            "L"
        },
        OrdType::NextFundValuationPoint => {
            proof {
                reveal_strlit("M");
            }
            "M"
        },
        OrdType::Pegged => {
            proof {
                reveal_strlit("P");
            }
            "P"
        },
    }
}

/// The protocol character of `tif`, as text.
pub fn time_in_force_text(tif: TimeInForce) -> (r: &'static str)
    ensures
        r@ == seq![time_in_force_code(tif)],
{
    match tif {
        TimeInForce::Day => {
            proof {
                reveal_strlit("0");
            }
            "0"
        },
        TimeInForce::GoodTillCancel => {
            proof {
                reveal_strlit("1");
            }
            "1"
        },
        TimeInForce::AtTheOpening => {
            proof {
                reveal_strlit("2");
            }
            "2"
        },
        TimeInForce::ImmediateOrCancel => {
            proof {
                reveal_strlit("3");
            }
            "3"
        },
        TimeInForce::FillOrKill => {
            proof {
                reveal_strlit("4");
            }
            "4"
        },
        TimeInForce::GoodTillCrossing => {
            proof {
                reveal_strlit("5");
            }
            "5"
        },
        TimeInForce::GoodTillDate => {
            proof {
                reveal_strlit("6");
            }
            "6"
        },
        TimeInForce::AtTheClose => {
            proof {
                reveal_strlit("7");
            }
            "7"
        },
    }
}

/// The name of a side, as it is spelled in the enum.
pub open spec fn side_name_of(side: Side) -> Seq<char> {
    match side {
        Side::Buy => "Buy"@,
        Side::Sell => "Sell"@,
        Side::BuyMinus => "BuyMinus"@,
        Side::SellPlus => "SellPlus"@,
        Side::SellShort => "SellShort"@,
        Side::SellShortExempt => "SellShortExempt"@,
        Side::Undisclosed => "Undisclosed"@,
        Side::Cross => "Cross"@,
        Side::CrossShort => "CrossShort"@,
        Side::CrossShortExempt => "CrossShortExempt"@,
        Side::AsDefined => "AsDefined"@,
        Side::Opposite => "Opposite"@,
        Side::Subscribe => "Subscribe"@,
        Side::Redeem => "Redeem"@,
        Side::Lend => "Lend"@,
        Side::Borrow => "Borrow"@,
    }
}

/// The name of an order type, as it is spelled in the enum.
pub open spec fn order_type_name_of(order_type: OrdType) -> Seq<char> {
    match order_type {
        OrdType::Market => "Market"@,
        OrdType::Limit => "Limit"@,
        OrdType::Stop => "Stop"@,
        OrdType::StopLimit => "StopLimit"@,
        OrdType::WithOrWithout => "WithOrWithout"@,
        OrdType::LimitOrBetter => "LimitOrBetter"@,
        OrdType::LimitWithOrWithout => "LimitWithOrWithout"@,
        OrdType::OnBasis => "OnBasis"@,
        OrdType::PreviouslyQuoted => "PreviouslyQuoted"@,
        OrdType::PreviouslyIndicated => "PreviouslyIndicated"@,
        OrdType::ForexSwap => "ForexSwap"@,
        OrdType::Funari => "Funari"@,
        OrdType::MarketIfTouched => "MarketIfTouched"@,
        OrdType::MarketWithLeftOverAsLimit => "MarketWithLeftOverAsLimit"@,
        OrdType::PreviousFundValuationPoint => "PreviousFundValuationPoint"@,
        OrdType::NextFundValuationPoint => "NextFundValuationPoint"@,
        OrdType::Pegged => "Pegged"@,
    }
}

/// The name of `side`.
pub fn side_name(side: Side) -> (r: &'static str)
    ensures
        r@ == side_name_of(side),
{
    match side {
        Side::Buy => "Buy",
        Side::Sell => "Sell",
        Side::BuyMinus => "BuyMinus",
        Side::SellPlus => "SellPlus",
        Side::SellShort => "SellShort",
        Side::SellShortExempt => "SellShortExempt",
        Side::Undisclosed => "Undisclosed",
        Side::Cross => "Cross",
        Side::CrossShort => "CrossShort",
        Side::CrossShortExempt => "CrossShortExempt",
        Side::AsDefined => "AsDefined",
        Side::Opposite => "Opposite",
        Side::Subscribe => "Subscribe",
        Side::Redeem => "Redeem",
        Side::Lend => "Lend",
        Side::Borrow => "Borrow",
    }
}

/// The name of `order_type`.
pub fn order_type_name(order_type: OrdType) -> (r: &'static str)
    ensures
        r@ == order_type_name_of(order_type),
{
    match order_type {
        OrdType::Market => "Market",
        OrdType::Limit => "Limit",
        OrdType::Stop => "Stop",
        OrdType::StopLimit => "StopLimit",
        OrdType::WithOrWithout => "WithOrWithout",
        OrdType::LimitOrBetter => "LimitOrBetter",
        OrdType::LimitWithOrWithout => "LimitWithOrWithout",
        OrdType::OnBasis => "OnBasis",
        OrdType::PreviouslyQuoted => "PreviouslyQuoted",
        OrdType::PreviouslyIndicated => "PreviouslyIndicated",
        OrdType::ForexSwap => "ForexSwap",
        OrdType::Funari => "Funari",
        OrdType::MarketIfTouched => "MarketIfTouched",
        OrdType::MarketWithLeftOverAsLimit => "MarketWithLeftOverAsLimit",
        OrdType::PreviousFundValuationPoint => "PreviousFundValuationPoint",
        OrdType::NextFundValuationPoint => "NextFundValuationPoint",
        OrdType::Pegged => "Pegged",
    }
}

} // verus!
