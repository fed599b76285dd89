use vstd::prelude::*;
use vstd::string::*;
use crate::text::same_text;

verus! {

/// The number of names by which a currency may be written.
pub const CURRENCY_IDENTIFIER_COUNT: usize = 113;

/// Entry `i` of the names of currencies: symbols, codes and names.
pub open spec fn currency_identifier_text(i: int) -> Seq<char> {
    if i == 0 {
        "$"@
    } else if i == 1 {
        "USD"@
    } else if i == 2 {
        "dollar"@
    } else if i == 3 {
        "dollars"@
    } else if i == 4 {
        "A$"@
    } else if i == 5 {
        "AUD"@
    } else if i == 6 {
        "australian_dollar"@
    } else if i == 7 {
        "australian_dollars"@
    } else if i == 8 {
        "C$"@
    } else if i == 9 {
        "CAD"@
    } else if i == 10 {
        "canadian_dollar"@
    } else if i == 11 {
        "canadian_dollars"@
    } else if i == 12 {
        "CHF"@
    } else if i == 13 {
        "swiss_franc"@
    } else if i == 14 {
        "swiss_francs"@
    } else if i == 15 {
        "CNY"@
    } else if i == 16 {
        "renminbi"@
    } else if i == 17 {
        "元"@
    } else if i == 18 {
        "EUR"@
    } else if i == 19 {
        "euro"@
    } else if i == 20 {
        "euros"@
    } else if i == 21 {
        "€"@
    } else if i == 22 {
        "GBP"@
    } else if i == 23 {
        "british_pound"@
    } else if i == 24 {
        "pound_sterling"@
    } else if i == 25 {
        "£"@
    } else if i == 26 {
        "JPY"@
    } else if i == 27 {
        "yen"@
    } else if i == 28 {
        "yens"@
    } else if i == 29 {
        "¥"@
    } else if i == 30 {
        "円"@
    } else if i == 31 {
        "bulgarian_lev"@
    } else if i == 32 {
        "bulgarian_leva"@
    } else if i == 33 {
        "BGN"@
    } else if i == 34 {
        "czech_koruna"@
    } else if i == 35 {
        "czech_korunas"@
    } else if i == 36 {
        "CZK"@
    } else if i == 37 {
        "Kč"@
    } else if i == 38 {
        "hungarian_forint"@
    } else if i == 39 {
        "hungarian_forints"@
    } else if i == 40 {
        "HUF"@
    } else if i == 41 {
        "Ft"@
    } else if i == 42 {
        "polish_zloty"@
    } else if i == 43 {
        "polish_zlotys"@
    } else if i == 44 {
        "PLN"@
    } else if i == 45 {
        "zł"@
    } else if i == 46 {
        "romanian_leu"@
    } else if i == 47 {
        "romanian_leus"@
    } else if i == 48 {
        "RON"@
    } else if i == 49 {
        "lei"@
    } else if i == 50 {
        "turkish_lira"@
    } else if i == 51 {
        "turkish_liras"@
    } else if i == 52 {
        "TRY"@
    } else if i == 53 {
        "₺"@
    } else if i == 54 {
        "brazilian_real"@
    } else if i == 55 {
        "brazilian_reals"@
    } else if i == 56 {
        "BRL"@
    } else if i == 57 {
        "R$"@
    } else if i == 58 {
        "hong_kong_dollar"@
    } else if i == 59 {
        "hong_kong_dollars"@
    } else if i == 60 {
        "HKD"@
    } else if i == 61 {
        "HK$"@
    } else if i == 62 {
        "indonesian_rupiah"@
    } else if i == 63 {
        "indonesian_rupiahs"@
    } else if i == 64 {
        "IDR"@
    } else if i == 65 {
        "Rp"@
    } else if i == 66 {
        "indian_rupee"@
    } else if i == 67 {
        "indian_rupees"@
    } else if i == 68 {
        "INR"@
    } else if i == 69 {
        "₹"@
    } else if i == 70 {
        "south_korean_won"@
    } else if i == 71 {
        "south_korean_wons"@
    } else if i == 72 {
        "KRW"@
    } else if i == 73 {
        "₩"@
    } else if i == 74 {
        "malaysian_ringgit"@
    } else if i == 75 {
        "malaysian_ringgits"@
    } else if i == 76 {
        "MYR"@
    } else if i == 77 {
        "RM"@
    } else if i == 78 {
        "new_zealand_dollar"@
    } else if i == 79 {
        "new_zealand_dollars"@
    } else if i == 80 {
        "NZD"@
    } else if i == 81 {
        "NZ$"@
    } else if i == 82 {
        "philippine_peso"@
    } else if i == 83 {
        "philippine_pesos"@
    } else if i == 84 {
        "PHP"@
    } else if i == 85 {
        "₱"@
    } else if i == 86 {
        "singapore_dollar"@
    } else if i == 87 {
        "singapore_dollars"@
    } else if i == 88 {
        "SGD"@
    } else if i == 89 {
        "S$"@
    } else if i == 90 {
        "thai_baht"@
    } else if i == 91 {
        "thai_bahts"@
    } else if i == 92 {
        "THB"@
    } else if i == 93 {
        "฿"@
    } else if i == 94 {
        "danish_krone"@
    } else if i == 95 {
        "danish_kroner"@
    } else if i == 96 {
        "DKK"@
    } else if i == 97 {
        "swedish_krona"@
    } else if i == 98 {
        "swedish_kronor"@
    } else if i == 99 {
        "SEK"@
    } else if i == 100 {
        "icelandic_króna"@
    } else if i == 101 {
        "icelandic_krónur"@
    } else if i == 102 {
        "ISK"@
    } else if i == 103 {
        "norwegian_krone"@
    } else if i == 104 {
        "norwegian_kroner"@
    } else if i == 105 {
        "NOK"@
    } else if i == 106 {
        "israeli_new_shekel"@
    } else if i == 107 {
        "israeli_new_shekels"@
    } else if i == 108 {
        "ILS"@
    } else if i == 109 {
        "₪"@
    } else if i == 110 {
        "NIS"@
    } else if i == 111 {
        "south_african_rand"@
    } else if i == 112 {
        "ZAR"@
    } else {
        Seq::empty()
    }
}

/// Entry `i` of the names of currencies.
pub fn currency_identifier(i: usize) -> (r: &'static str)
    requires
        i < CURRENCY_IDENTIFIER_COUNT,
    ensures
        r@ == currency_identifier_text(i as int),
{
    if i == 0 {
        "$"
    } else if i == 1 {
        "USD"
    } else if i == 2 {
        "dollar"
    } else if i == 3 {
        "dollars"
    } else if i == 4 {
        "A$"
    } else if i == 5 {
        "AUD"
    } else if i == 6 {
        "australian_dollar"
    } else if i == 7 {
        "australian_dollars"
    } else if i == 8 {
        "C$"
    } else if i == 9 {
        "CAD"
    } else if i == 10 {
        "canadian_dollar"
    } else if i == 11 {
        "canadian_dollars"
    } else if i == 12 {
        "CHF"
    } else if i == 13 {
        "swiss_franc"
    } else if i == 14 {
        "swiss_francs"
    } else if i == 15 {
        "CNY"
    } else if i == 16 {
        "renminbi"
    } else if i == 17 {
        "元"
    } else if i == 18 {
        "EUR"
    } else if i == 19 {
        "euro"
    } else if i == 20 {
        "euros"
    } else if i == 21 {
        "€"
    } else if i == 22 {
        "GBP"
    } else if i == 23 {
        "british_pound"
    } else if i == 24 {
        "pound_sterling"
    } else if i == 25 {
        "£"
    } else if i == 26 {
        "JPY"
    } else if i == 27 {
        "yen"
    } else if i == 28 {
        "yens"
    } else if i == 29 {
        "¥"
    } else if i == 30 {
        "円"
    } else if i == 31 {
        "bulgarian_lev"
    } else if i == 32 {
        "bulgarian_leva"
    } else if i == 33 {
        "BGN"
    } else if i == 34 {
        "czech_koruna"
    } else if i == 35 {
        "czech_korunas"
    } else if i == 36 {
        "CZK"
    } else if i == 37 {
        "Kč"
    } else if i == 38 {
        "hungarian_forint"
    } else if i == 39 {
        "hungarian_forints"
    } else if i == 40 {
        "HUF"
    } else if i == 41 {
        "Ft"
    } else if i == 42 {
        "polish_zloty"
    } else if i == 43 {
        "polish_zlotys"
    } else if i == 44 {
        "PLN"
    } else if i == 45 {
        "zł"
    } else if i == 46 {
        "romanian_leu"
    } else if i == 47 {
        "romanian_leus"
    } else if i == 48 {
        "RON"
    } else if i == 49 {
        "lei"
    } else if i == 50 {
        "turkish_lira"
    } else if i == 51 {
        "turkish_liras"
    } else if i == 52 {
        "TRY"
    } else if i == 53 {
        "₺"
    } else if i == 54 {
        "brazilian_real"
    } else if i == 55 {
        "brazilian_reals"
    } else if i == 56 {
        "BRL"
    } else if i == 57 {
        "R$"
    } else if i == 58 {
        "hong_kong_dollar"
    } else if i == 59 {
        "hong_kong_dollars"
    } else if i == 60 {
        "HKD"
    } else if i == 61 {
        "HK$"
    } else if i == 62 {
        "indonesian_rupiah"
    } else if i == 63 {
        "indonesian_rupiahs"
    } else if i == 64 {
        "IDR"
    } else if i == 65 {
        "Rp"
    } else if i == 66 {
        "indian_rupee"
    } else if i == 67 {
        "indian_rupees"
    } else if i == 68 {
        "INR"
    } else if i == 69 {
        "₹"
    } else if i == 70 {
        "south_korean_won"
    } else if i == 71 {
        "south_korean_wons"
    } else if i == 72 {
        "KRW"
    } else if i == 73 {
        "₩"
    } else if i == 74 {
        "malaysian_ringgit"
    } else if i == 75 {
        "malaysian_ringgits"
    } else if i == 76 {
        "MYR"
    } else if i == 77 {
        "RM"
    } else if i == 78 {
        "new_zealand_dollar"
    } else if i == 79 {
        "new_zealand_dollars"
    } else if i == 80 {
        "NZD"
    } else if i == 81 {
        "NZ$"
    } else if i == 82 {
        "philippine_peso"
    } else if i == 83 {
        "philippine_pesos"
    } else if i == 84 {
        "PHP"
    } else if i == 85 {
        "₱"
    } else if i == 86 {
        "singapore_dollar"
    } else if i == 87 {
        "singapore_dollars"
    } else if i == 88 {
        "SGD"
    } else if i == 89 {
        "S$"
    } else if i == 90 {
        "thai_baht"
    } else if i == 91 {
        "thai_bahts"
    } else if i == 92 {
        "THB"
    } else if i == 93 {
        "฿"
    } else if i == 94 {
        "danish_krone"
    } else if i == 95 {
        "danish_kroner"
    } else if i == 96 {
        "DKK"
    } else if i == 97 {
        "swedish_krona"
    } else if i == 98 {
        "swedish_kronor"
    } else if i == 99 {
        "SEK"
    } else if i == 100 {
        "icelandic_króna"
    } else if i == 101 {
        "icelandic_krónur"
    } else if i == 102 {
        "ISK"
    } else if i == 103 {
        "norwegian_krone"
    } else if i == 104 {
        "norwegian_kroner"
    } else if i == 105 {
        "NOK"
    } else if i == 106 {
        "israeli_new_shekel"
    } else if i == 107 {
        "israeli_new_shekels"
    } else if i == 108 {
        "ILS"
    } else if i == 109 {
        "₪"
    } else if i == 110 {
        "NIS"
    } else if i == 111 {
        "south_african_rand"
    } else if i == 112 {
        "ZAR"
    } else {
        ""
    }
}

/// Whether `text` is the name of a currency.
pub open spec fn names_currency(text: Seq<char>) -> bool {
    exists|i: int| 0 <= i < CURRENCY_IDENTIFIER_COUNT && #[trigger] currency_identifier_text(i) == text
}

/// Whether `text` is the name of a currency.
pub fn is_currency_identifier(text: &str) -> (r: bool)
    ensures
        r == names_currency(text@),
{
    let mut i: usize = 0;
    while i < CURRENCY_IDENTIFIER_COUNT
        invariant
            i <= CURRENCY_IDENTIFIER_COUNT,
            forall|j: int| 0 <= j < i ==> #[trigger] currency_identifier_text(j) != text@,
        decreases CURRENCY_IDENTIFIER_COUNT - i,
    {
        if same_text(currency_identifier(i), text) {
            return true;
        }
        i += 1;
    }
    false
}

} // verus!
