//! Nuclear facilities known to the reactor information source, and where
//! they are.
//!
//! Coordinates are ten-thousandths of a degree: every coordinate in the table
//! has at most four decimals, so dividing by 10000 gives back the `f64` value.
use vstd::prelude::*;
use crate::text::{chars_of, concat_strs, has_infix, str_contains, str_eq, string_from_chars, trim_chars, trimmed};
use crate::feeds::{replace_spaces, sensor_uuid, spaces_to_hyphens, uuid_v5_dns};

verus! {

/// Known facilities: lower-case name, lower-case country, latitude and
/// longitude in ten-thousandths of a degree.
pub open spec fn facility_table() -> Seq<(Seq<char>, Seq<char>, i32, i32)> {
    seq![
        ("fukushima daiichi"@, "japan"@, 374211i32, 1410328i32),
        ("chernobyl"@, "ukraine"@, 512763i32, 302219i32),
        ("zaporizhzhia"@, "ukraine"@, 475119i32, 345864i32),
        ("kashiwazaki-kariwa"@, "japan"@, 374286i32, 1385953i32),
        ("hamaoka"@, "japan"@, 346236i32, 1381453i32),
        ("genkai"@, "japan"@, 335156i32, 1298375i32),
        ("sendai"@, "japan"@, 318333i32, 1301833i32),
        ("ikata"@, "japan"@, 334908i32, 1323111i32),
        ("three mile island"@, "united states"@, 401539i32, -767247i32),
        ("indian point"@, "united states"@, 412694i32, -739522i32),
        ("pilgrim"@, "united states"@, 419433i32, -705789i32),
        ("millstone"@, "united states"@, 413117i32, -721686i32),
        ("seabrook"@, "united states"@, 428989i32, -708508i32),
        ("vogtle"@, "united states"@, 331428i32, -817653i32),
        ("watts bar"@, "united states"@, 356017i32, -847894i32),
        ("sequoyah"@, "united states"@, 352267i32, -850917i32),
        ("browns ferry"@, "united states"@, 347042i32, -871189i32),
        ("brunswick"@, "united states"@, 339583i32, -780167i32),
        ("catawba"@, "united states"@, 350517i32, -810708i32),
        ("mcguire"@, "united states"@, 354328i32, -809483i32),
        ("oconee"@, "united states"@, 347939i32, -828989i32),
        ("h.b. robinson"@, "united states"@, 344036i32, -801583i32),
        ("st. lucie"@, "united states"@, 273486i32, -802464i32),
        ("turkey point"@, "united states"@, 254347i32, -803336i32),
        ("beaver valley"@, "united states"@, 406217i32, -804328i32),
        ("perry"@, "united states"@, 418003i32, -811433i32),
        ("davis-besse"@, "united states"@, 415967i32, -830861i32),
        ("fermi"@, "united states"@, 419633i32, -832583i32),
        ("palisades"@, "united states"@, 423228i32, -863142i32),
        ("point beach"@, "united states"@, 442803i32, -875361i32),
        ("kewaunee"@, "united states"@, 443511i32, -875370i32),
        ("cooper"@, "united states"@, 403619i32, -956411i32),
        ("fort calhoun"@, "united states"@, 415208i32, -958811i32),
        ("quad cities"@, "united states"@, 417267i32, -903100i32),
        ("byron"@, "united states"@, 420744i32, -892825i32),
        ("braidwood"@, "united states"@, 412436i32, -882289i32),
        ("clinton"@, "united states"@, 401722i32, -888350i32),
        ("dresden"@, "united states"@, 413897i32, -882711i32),
        ("lasalle"@, "united states"@, 412456i32, -886692i32),
        ("zion"@, "united states"@, 424461i32, -877978i32),
        ("duane arnold"@, "united states"@, 422983i32, -917819i32),
        ("wolf creek"@, "united states"@, 382386i32, -956889i32),
        ("callaway"@, "united states"@, 387625i32, -917819i32),
        ("cook"@, "united states"@, 419756i32, -865558i32),
        ("monticello"@, "united states"@, 453339i32, -938489i32),
        ("prairie island"@, "united states"@, 446217i32, -926333i32),
        ("grand gulf"@, "united states"@, 320069i32, -910481i32),
        ("river bend"@, "united states"@, 307567i32, -913333i32),
        ("waterford"@, "united states"@, 299953i32, -904711i32),
        ("nine mile point"@, "united states"@, 434711i32, -764083i32),
        ("ginna"@, "united states"@, 432778i32, -773097i32),
        ("fitzpatrick"@, "united states"@, 435233i32, -763983i32),
        ("hope creek"@, "united states"@, 394683i32, -755381i32),
        ("salem"@, "united states"@, 394628i32, -755356i32),
        ("peach bottom"@, "united states"@, 397583i32, -762681i32),
        ("limerick"@, "united states"@, 402267i32, -755861i32),
        ("harris"@, "united states"@, 356333i32, -782833i32),
        ("farley"@, "united states"@, 310069i32, -851517i32),
        ("virgil c. summer"@, "united states"@, 341436i32, -814186i32),
        ("bellefonte"@, "united states"@, 347111i32, -859125i32),
        ("blayais"@, "france"@, 452558i32, -6931i32),
        ("civaux"@, "france"@, 464567i32, 6528i32),
        ("cruas"@, "france"@, 446311i32, 47567i32),
        ("dampierre"@, "france"@, 477333i32, 25167i32),
        ("fessenheim"@, "france"@, 479033i32, 75633i32),
        ("flamanville"@, "france"@, 495367i32, -18817i32),
        ("golfech"@, "france"@, 441067i32, 8433i32),
        ("gravelines"@, "france"@, 510147i32, 21361i32),
        ("nogent"@, "france"@, 485153i32, 35186i32),
        ("paluel"@, "france"@, 498581i32, 6356i32),
        ("penly"@, "france"@, 499767i32, 12119i32),
        ("saint-alban"@, "france"@, 454033i32, 47597i32),
        ("saint-laurent"@, "france"@, 477200i32, 15800i32),
        ("tricastin"@, "france"@, 443297i32, 47322i32),
        ("chinon"@, "france"@, 472306i32, 1736i32),
        ("belleville"@, "france"@, 473000i32, 28833i32),
        ("cattenom"@, "france"@, 494150i32, 62181i32),
        ("brokdorf"@, "germany"@, 538508i32, 93458i32),
        ("grohnde"@, "germany"@, 520358i32, 94139i32),
        ("gundremmingen"@, "germany"@, 485167i32, 104000i32),
        ("isar"@, "germany"@, 486053i32, 122956i32),
        ("philippsburg"@, "germany"@, 492525i32, 84386i32),
        ("neckarwestheim"@, "germany"@, 490400i32, 90881i32),
        ("biblis"@, "germany"@, 497069i32, 84153i32),
        ("dungeness"@, "united kingdom"@, 509144i32, 9639i32),
        ("hartlepool"@, "united kingdom"@, 546347i32, -11800i32),
        ("heysham"@, "united kingdom"@, 540286i32, -29161i32),
        ("hinkley point"@, "united kingdom"@, 512097i32, -31272i32),
        ("hunterston"@, "united kingdom"@, 557222i32, -48900i32),
        ("sizewell"@, "united kingdom"@, 522136i32, 16194i32),
        ("torness"@, "united kingdom"@, 559686i32, -24067i32),
        ("wylfa"@, "united kingdom"@, 534167i32, -44833i32),
        ("balakovo"@, "russia"@, 520333i32, 478000i32),
        ("beloyarsk"@, "russia"@, 568500i32, 613167i32),
        ("bilibino"@, "russia"@, 680500i32, 1664500i32),
        ("kalinin"@, "russia"@, 568500i32, 359167i32),
        ("kola"@, "russia"@, 674667i32, 324667i32),
        ("kursk"@, "russia"@, 517333i32, 356000i32),
        ("leningrad"@, "russia"@, 599833i32, 290500i32),
        ("novovoronezh"@, "russia"@, 512833i32, 392000i32),
        ("rostov"@, "russia"@, 476000i32, 424333i32),
        ("smolensk"@, "russia"@, 542000i32, 332333i32),
        ("volgodonsk"@, "russia"@, 475167i32, 422167i32),
        ("rivne"@, "ukraine"@, 513250i32, 258833i32),
        ("south ukraine"@, "ukraine"@, 478167i32, 312167i32),
        ("khmelnytskyi"@, "ukraine"@, 503028i32, 266478i32),
        ("bruce"@, "canada"@, 443250i32, -815983i32),
        ("darlington"@, "canada"@, 438728i32, -787197i32),
        ("pickering"@, "canada"@, 438117i32, -790650i32),
        ("kori"@, "south korea"@, 353208i32, 1293000i32),
        ("wolsong"@, "south korea"@, 357136i32, 1294750i32),
        ("hanbit"@, "south korea"@, 354125i32, 1264167i32),
        ("hanul"@, "south korea"@, 370928i32, 1293836i32),
        ("tarapur"@, "india"@, 198286i32, 726611i32),
        ("rawatbhata"@, "india"@, 255917i32, 756167i32),
        ("kalpakkam"@, "india"@, 125583i32, 801750i32),
        ("narora"@, "india"@, 281517i32, 784083i32),
        ("kakrapar"@, "india"@, 212386i32, 733536i32),
        ("kudankulam"@, "india"@, 81681i32, 777125i32),
        ("kaiga"@, "india"@, 148650i32, 744394i32),
        ("daya bay"@, "china"@, 225975i32, 1145431i32),
        ("ling ao"@, "china"@, 226050i32, 1145517i32),
        ("qinshan"@, "china"@, 304361i32, 1209583i32),
        ("tianwan"@, "china"@, 346869i32, 1194603i32),
        ("fuqing"@, "china"@, 254450i32, 1194472i32),
        ("ningde"@, "china"@, 270450i32, 1202833i32),
        ("hongyanhe"@, "china"@, 398000i32, 1214833i32),
        ("yangjiang"@, "china"@, 217000i32, 1122500i32),
        ("taishan"@, "china"@, 219167i32, 1129833i32),
        ("haiyang"@, "china"@, 367167i32, 1213833i32),
        ("forsmark"@, "sweden"@, 604033i32, 181667i32),
        ("oskarshamn"@, "sweden"@, 574156i32, 166667i32),
        ("ringhals"@, "sweden"@, 572636i32, 121111i32),
        ("olkiluoto"@, "finland"@, 612367i32, 214400i32),
        ("loviisa"@, "finland"@, 603703i32, 263472i32),
        ("doel"@, "belgium"@, 513253i32, 42586i32),
        ("tihange"@, "belgium"@, 505347i32, 52728i32),
        ("borssele"@, "netherlands"@, 514386i32, 39181i32),
        ("almaraz"@, "spain"@, 398000i32, -57000i32),
        ("ascó"@, "spain"@, 412000i32, 5667i32),
        ("cofrentes"@, "spain"@, 392333i32, -10833i32),
        ("trillo"@, "spain"@, 407000i32, -26000i32),
        ("beznau"@, "switzerland"@, 475519i32, 82283i32),
        ("gosgen"@, "switzerland"@, 473667i32, 79667i32),
        ("leibstadt"@, "switzerland"@, 476000i32, 81833i32),
        ("dukovany"@, "czech republic"@, 490850i32, 161489i32),
        ("temelin"@, "czech republic"@, 491800i32, 143667i32),
        ("bohunice"@, "slovakia"@, 484944i32, 178639i32),
        ("mochovce"@, "slovakia"@, 482639i32, 184569i32),
        ("paks"@, "hungary"@, 465733i32, 188550i32),
        ("cernavodă"@, "romania"@, 443200i32, 280300i32),
        ("kozloduy"@, "bulgaria"@, 437461i32, 237708i32),
        ("atucha"@, "argentina"@, -339667i32, -592000i32),
        ("embalse"@, "argentina"@, -322333i32, -644333i32),
        ("angra"@, "brazil"@, -230078i32, -444608i32),
        ("laguna verde"@, "mexico"@, 187000i32, -964167i32),
        ("koeberg"@, "south africa"@, -336767i32, 184333i32),
        ("chashma"@, "pakistan"@, 323833i32, 714667i32),
        ("karachi"@, "pakistan"@, 248667i32, 667667i32),
        ("bushehr"@, "iran"@, 288283i32, 508917i32),
        ("barakah"@, "united arab emirates"@, 239667i32, 522333i32),
        ("jinshan"@, "taiwan"@, 252833i32, 1215833i32),
        ("kuosheng"@, "taiwan"@, 252000i32, 1216667i32),
        ("maanshan"@, "taiwan"@, 219500i32, 1207500i32)
    ]
}

/// The coordinates of the first facility in `t` with this name and country;
/// `(0, 0)` for an unknown facility.
pub open spec fn lookup_facility(t: Seq<(Seq<char>, Seq<char>, i32, i32)>, name: Seq<char>, country: Seq<char>) -> (i32, i32)
    decreases t.len(),
{
    if t.len() == 0 {
        (0, 0)
    } else if t[0].0 == name && t[0].1 == country {
        (t[0].2, t[0].3)
    } else {
        lookup_facility(t.drop_first(), name, country)
    }
}

/// A facility is found only when both its name and its country match an
/// entry of the table: any other pair gives `(0, 0)`.
pub proof fn law_facility_needs_name_and_country(t: Seq<(Seq<char>, Seq<char>, i32, i32)>, name: Seq<char>, country: Seq<char>)
    ensures
        lookup_facility(t, name, country) != (0i32, 0i32) ==> exists|i: int|
            0 <= i < t.len() && #[trigger] t[i].0 == name && t[i].1 == country,
    decreases t.len(),
{
    if t.len() > 0 {
        law_facility_needs_name_and_country(t.drop_first(), name, country);
        if !(t[0].0 == name && t[0].1 == country) && lookup_facility(t, name, country) != (0i32, 0i32) {
            let i = choose|i: int| 0 <= i < t.drop_first().len() && #[trigger] t.drop_first()[i].0 == name
                && t.drop_first()[i].1 == country;
            assert(t[i + 1] == t.drop_first()[i]);
        }
    }
}

/// The lower-case form of `s` that `str::to_lowercase` gives.
pub uninterp spec fn lowercase(s: Seq<char>) -> Seq<char>;

/// `str::to_lowercase`: the string in lower case, by the Unicode rules, which
/// are not restated here.
#[verifier::external_body]
pub(crate) fn to_lowercase(s: &str) -> (r: String)
    ensures
        r@ == lowercase(s@),
{
    s.to_lowercase()
}

fn table() -> (t: Vec<(&'static str, &'static str, i32, i32)>)
    ensures
        t@.map_values(|e: (&'static str, &'static str, i32, i32)| (e.0@, e.1@, e.2, e.3)) == facility_table(),
{
    let t = vec![
        ("fukushima daiichi", "japan", 374211i32, 1410328i32),
        ("chernobyl", "ukraine", 512763i32, 302219i32),
        ("zaporizhzhia", "ukraine", 475119i32, 345864i32),
        ("kashiwazaki-kariwa", "japan", 374286i32, 1385953i32),
        ("hamaoka", "japan", 346236i32, 1381453i32),
        ("genkai", "japan", 335156i32, 1298375i32),
        ("sendai", "japan", 318333i32, 1301833i32),
        ("ikata", "japan", 334908i32, 1323111i32),
        ("three mile island", "united states", 401539i32, -767247i32),
        ("indian point", "united states", 412694i32, -739522i32),
        ("pilgrim", "united states", 419433i32, -705789i32),
        ("millstone", "united states", 413117i32, -721686i32),
        ("seabrook", "united states", 428989i32, -708508i32),
        ("vogtle", "united states", 331428i32, -817653i32),
        ("watts bar", "united states", 356017i32, -847894i32),
        ("sequoyah", "united states", 352267i32, -850917i32),
        ("browns ferry", "united states", 347042i32, -871189i32),
        ("brunswick", "united states", 339583i32, -780167i32),
        ("catawba", "united states", 350517i32, -810708i32),
        ("mcguire", "united states", 354328i32, -809483i32),
        ("oconee", "united states", 347939i32, -828989i32),
        ("h.b. robinson", "united states", 344036i32, -801583i32),
        ("st. lucie", "united states", 273486i32, -802464i32),
        ("turkey point", "united states", 254347i32, -803336i32),
        ("beaver valley", "united states", 406217i32, -804328i32),
        ("perry", "united states", 418003i32, -811433i32),
        ("davis-besse", "united states", 415967i32, -830861i32),
        ("fermi", "united states", 419633i32, -832583i32),
        ("palisades", "united states", 423228i32, -863142i32),
        ("point beach", "united states", 442803i32, -875361i32),
        ("kewaunee", "united states", 443511i32, -875370i32),
        ("cooper", "united states", 403619i32, -956411i32),
        ("fort calhoun", "united states", 415208i32, -958811i32),
        ("quad cities", "united states", 417267i32, -903100i32),
        ("byron", "united states", 420744i32, -892825i32),
        ("braidwood", "united states", 412436i32, -882289i32),
        ("clinton", "united states", 401722i32, -888350i32),
        ("dresden", "united states", 413897i32, -882711i32),
        ("lasalle", "united states", 412456i32, -886692i32),
        ("zion", "united states", 424461i32, -877978i32),
        ("duane arnold", "united states", 422983i32, -917819i32),
        ("wolf creek", "united states", 382386i32, -956889i32),
        ("callaway", "united states", 387625i32, -917819i32),
        ("cook", "united states", 419756i32, -865558i32),
        ("monticello", "united states", 453339i32, -938489i32),
        ("prairie island", "united states", 446217i32, -926333i32),
        ("grand gulf", "united states", 320069i32, -910481i32),
        ("river bend", "united states", 307567i32, -913333i32),
        ("waterford", "united states", 299953i32, -904711i32),
        ("nine mile point", "united states", 434711i32, -764083i32),
        ("ginna", "united states", 432778i32, -773097i32),
        ("fitzpatrick", "united states", 435233i32, -763983i32),
        ("hope creek", "united states", 394683i32, -755381i32),
        ("salem", "united states", 394628i32, -755356i32),
        ("peach bottom", "united states", 397583i32, -762681i32),
        ("limerick", "united states", 402267i32, -755861i32),
        ("harris", "united states", 356333i32, -782833i32),
        ("farley", "united states", 310069i32, -851517i32),
        ("virgil c. summer", "united states", 341436i32, -814186i32),
        ("bellefonte", "united states", 347111i32, -859125i32),
        ("blayais", "france", 452558i32, -6931i32),
        ("civaux", "france", 464567i32, 6528i32),
        ("cruas", "france", 446311i32, 47567i32),
        ("dampierre", "france", 477333i32, 25167i32),
        ("fessenheim", "france", 479033i32, 75633i32),
        ("flamanville", "france", 495367i32, -18817i32),
        ("golfech", "france", 441067i32, 8433i32),
        ("gravelines", "france", 510147i32, 21361i32),
        ("nogent", "france", 485153i32, 35186i32),
        ("paluel", "france", 498581i32, 6356i32),
        ("penly", "france", 499767i32, 12119i32),
        ("saint-alban", "france", 454033i32, 47597i32),
        ("saint-laurent", "france", 477200i32, 15800i32),
        ("tricastin", "france", 443297i32, 47322i32),
        ("chinon", "france", 472306i32, 1736i32),
        ("belleville", "france", 473000i32, 28833i32),
        ("cattenom", "france", 494150i32, 62181i32),
        ("brokdorf", "germany", 538508i32, 93458i32),
        ("grohnde", "germany", 520358i32, 94139i32),
        ("gundremmingen", "germany", 485167i32, 104000i32),
        ("isar", "germany", 486053i32, 122956i32),
        ("philippsburg", "germany", 492525i32, 84386i32),
        ("neckarwestheim", "germany", 490400i32, 90881i32),
        ("biblis", "germany", 497069i32, 84153i32),
        ("dungeness", "united kingdom", 509144i32, 9639i32),
        ("hartlepool", "united kingdom", 546347i32, -11800i32),
        ("heysham", "united kingdom", 540286i32, -29161i32),
        ("hinkley point", "united kingdom", 512097i32, -31272i32),
        ("hunterston", "united kingdom", 557222i32, -48900i32),
        ("sizewell", "united kingdom", 522136i32, 16194i32),
        ("torness", "united kingdom", 559686i32, -24067i32),
        ("wylfa", "united kingdom", 534167i32, -44833i32),
        ("balakovo", "russia", 520333i32, 478000i32),
        ("beloyarsk", "russia", 568500i32, 613167i32),
        ("bilibino", "russia", 680500i32, 1664500i32),
        ("kalinin", "russia", 568500i32, 359167i32),
        ("kola", "russia", 674667i32, 324667i32),
        ("kursk", "russia", 517333i32, 356000i32),
        ("leningrad", "russia", 599833i32, 290500i32),
        ("novovoronezh", "russia", 512833i32, 392000i32),
        ("rostov", "russia", 476000i32, 424333i32),
        ("smolensk", "russia", 542000i32, 332333i32),
        ("volgodonsk", "russia", 475167i32, 422167i32),
        ("rivne", "ukraine", 513250i32, 258833i32),
        ("south ukraine", "ukraine", 478167i32, 312167i32),
        ("khmelnytskyi", "ukraine", 503028i32, 266478i32),
        ("bruce", "canada", 443250i32, -815983i32),
        ("darlington", "canada", 438728i32, -787197i32),
        ("pickering", "canada", 438117i32, -790650i32),
        ("kori", "south korea", 353208i32, 1293000i32),
        ("wolsong", "south korea", 357136i32, 1294750i32),
        ("hanbit", "south korea", 354125i32, 1264167i32),
        ("hanul", "south korea", 370928i32, 1293836i32),
        ("tarapur", "india", 198286i32, 726611i32),
        ("rawatbhata", "india", 255917i32, 756167i32),
        ("kalpakkam", "india", 125583i32, 801750i32),
        ("narora", "india", 281517i32, 784083i32),
        ("kakrapar", "india", 212386i32, 733536i32),
        ("kudankulam", "india", 81681i32, 777125i32),
        ("kaiga", "india", 148650i32, 744394i32),
        ("daya bay", "china", 225975i32, 1145431i32),
        ("ling ao", "china", 226050i32, 1145517i32),
        ("qinshan", "china", 304361i32, 1209583i32),
        ("tianwan", "china", 346869i32, 1194603i32),
        ("fuqing", "china", 254450i32, 1194472i32),
        ("ningde", "china", 270450i32, 1202833i32),
        ("hongyanhe", "china", 398000i32, 1214833i32),
        ("yangjiang", "china", 217000i32, 1122500i32),
        ("taishan", "china", 219167i32, 1129833i32),
        ("haiyang", "china", 367167i32, 1213833i32),
        ("forsmark", "sweden", 604033i32, 181667i32),
        ("oskarshamn", "sweden", 574156i32, 166667i32),
        ("ringhals", "sweden", 572636i32, 121111i32),
        ("olkiluoto", "finland", 612367i32, 214400i32),
        ("loviisa", "finland", 603703i32, 263472i32),
        ("doel", "belgium", 513253i32, 42586i32),
        ("tihange", "belgium", 505347i32, 52728i32),
        ("borssele", "netherlands", 514386i32, 39181i32),
        ("almaraz", "spain", 398000i32, -57000i32),
        ("ascó", "spain", 412000i32, 5667i32),
        ("cofrentes", "spain", 392333i32, -10833i32),
        ("trillo", "spain", 407000i32, -26000i32),
        ("beznau", "switzerland", 475519i32, 82283i32),
        ("gosgen", "switzerland", 473667i32, 79667i32),
        ("leibstadt", "switzerland", 476000i32, 81833i32),
        ("dukovany", "czech republic", 490850i32, 161489i32),
        ("temelin", "czech republic", 491800i32, 143667i32),
        ("bohunice", "slovakia", 484944i32, 178639i32),
        ("mochovce", "slovakia", 482639i32, 184569i32),
        ("paks", "hungary", 465733i32, 188550i32),
        ("cernavodă", "romania", 443200i32, 280300i32),
        ("kozloduy", "bulgaria", 437461i32, 237708i32),
        ("atucha", "argentina", -339667i32, -592000i32),
        ("embalse", "argentina", -322333i32, -644333i32),
        ("angra", "brazil", -230078i32, -444608i32),
        ("laguna verde", "mexico", 187000i32, -964167i32),
        ("koeberg", "south africa", -336767i32, 184333i32),
        ("chashma", "pakistan", 323833i32, 714667i32),
        ("karachi", "pakistan", 248667i32, 667667i32),
        ("bushehr", "iran", 288283i32, 508917i32),
        ("barakah", "united arab emirates", 239667i32, 522333i32),
        ("jinshan", "taiwan", 252833i32, 1215833i32),
        ("kuosheng", "taiwan", 252000i32, 1216667i32),
        ("maanshan", "taiwan", 219500i32, 1207500i32)
    ];
    assert(t@.map_values(|e: (&'static str, &'static str, i32, i32)| (e.0@, e.1@, e.2, e.3)) =~= facility_table());
    t
}

/// The coordinates of a facility given by its lower-case name and country;
/// `(0, 0)` for an unknown facility.
pub fn facility_coordinates(name: &str, country: &str) -> (c: (i32, i32))
    ensures
        c == lookup_facility(facility_table(), name@, country@),
{
    let t = table();
    let ghost view = t@.map_values(|e: (&'static str, &'static str, i32, i32)| (e.0@, e.1@, e.2, e.3));
    assert(view.subrange(0, view.len() as int) =~= view);
    let mut i: usize = 0;
    while i < t.len()
        invariant
            i <= t@.len(),
            view == facility_table(),
            view == t@.map_values(|e: (&'static str, &'static str, i32, i32)| (e.0@, e.1@, e.2, e.3)),
            lookup_facility(view, name@, country@) == lookup_facility(view.subrange(i as int, view.len() as int), name@, country@),
        decreases t.len() - i,
    {
        let e = t[i];
        proof {
            let rest = view.subrange(i as int, view.len() as int);
            assert(rest[0] == (e.0@, e.1@, e.2, e.3));
            assert(rest.drop_first() =~= view.subrange(i + 1, view.len() as int));
        }
        if str_eq(e.0, name) && str_eq(e.1, country) {
            proof {
                let rest = view.subrange(i as int, view.len() as int);
                assert(rest.len() > 0);
                assert(lookup_facility(rest, name@, country@) == (e.2, e.3));
            }
            return (e.2, e.3);
        }
        i = i + 1;
    }
    assert(view.subrange(i as int, view.len() as int) =~= Seq::<(Seq<char>, Seq<char>, i32, i32)>::empty());
    (0, 0)
}

// ---------------------------------------------------------------------------
// The reactor table page
// ---------------------------------------------------------------------------

/// What `regex::Regex` finds of `pattern` in `text`: `None` where the pattern
/// does not compile; else, for each successive non-overlapping match, the
/// texts of its capture groups after the whole match, `None` for a group that
/// took no part.
pub uninterp spec fn regex_groups(pattern: Seq<char>, text: Seq<char>) -> Option<Seq<Seq<Option<Seq<char>>>>>;

/// Compiles `pattern` with `regex::Regex::new` and walks `Regex::captures_iter`
/// over `text`, keeping the text of each capture group but the whole match.
/// The contract ties the result to the two strings only: what the pattern
/// language means is the crate's.
#[verifier::external_body]
fn regex_capture_groups(pattern: &str, text: &str) -> (r: Option<Vec<Vec<Option<String>>>>)
    ensures
        match r {
            Some(ms) => regex_groups(pattern@, text@) == Some(ms@.map_values(|m: Vec<Option<String>>| group_views(m@))),
            None => regex_groups(pattern@, text@) is None,
        },
{
    match regex::Regex::new(pattern) {
        Ok(re) => Some(
            re.captures_iter(text)
                .map(|cap| cap.iter().skip(1).map(|g| g.map(|m| m.as_str().to_string())).collect())
                .collect(),
        ),
        Err(_) => None,
    }
}

/// The views of a match's groups.
pub open spec fn group_views(groups: Seq<Option<String>>) -> Seq<Option<Seq<char>>> {
    groups.map_values(|g: Option<String>| match g { Some(t) => Some(t@), None => None })
}

/// A row of the reactor table: four cells, each without the markup around it.
pub open spec fn reactor_row_pattern() -> Seq<char> {
    r#"<tr[^>]*>.*?<td[^>]*>([^<]+)</td>.*?<td[^>]*>([^<]+)</td>.*?<td[^>]*>([^<]+)</td>.*?<td[^>]*>([^<]+)</td>.*?</tr>"#@
}

/// One reactor of the table: its name, country, type and status.
pub struct ReactorInfo {
    pub name: String,
    pub country: String,
    pub reactor_type: String,
    pub status: String,
}

/// A reactor as plain values.
pub type ReactorView = (Seq<char>, Seq<char>, Seq<char>, Seq<char>);

/// The view of a reactor.
pub open spec fn reactor_view(r: ReactorInfo) -> ReactorView {
    (r.name@, r.country@, r.reactor_type@, r.status@)
}

/// The trimmed text of group `i`, or `Unknown` where it took no part.
pub open spec fn cell_or_unknown(groups: Seq<Option<Seq<char>>>, i: int) -> Seq<char> {
    if 0 <= i < groups.len() {
        match groups[i] {
            Some(t) => trimmed(t),
            None => "Unknown"@,
        }
    } else {
        "Unknown"@
    }
}

/// What a match gives: nothing for a header row, one whose name mentions
/// `name` or `reactor` in lower case; else its four cells.
pub open spec fn reactor_of(groups: Seq<Option<Seq<char>>>) -> Option<ReactorView> {
    let name = cell_or_unknown(groups, 0);
    if has_infix(lowercase(name), "name"@) || has_infix(lowercase(name), "reactor"@) {
        None
    } else {
        Some((name, cell_or_unknown(groups, 1), cell_or_unknown(groups, 2), cell_or_unknown(groups, 3)))
    }
}

/// The reactors of the first `n` matches, in order.
pub open spec fn reactors_of(matches: Seq<Seq<Option<Seq<char>>>>, n: int) -> Seq<ReactorView>
    decreases n,
{
    if n <= 0 {
        Seq::empty()
    } else {
        let rest = reactors_of(matches, n - 1);
        match reactor_of(matches[n - 1]) {
            Some(r) => rest.push(r),
            None => rest,
        }
    }
}

fn cell_text(groups: &Vec<Option<String>>, i: usize) -> (r: String)
    ensures
        r@ == cell_or_unknown(group_views(groups@), i as int),
{
    if i < groups.len() {
        match &groups[i] {
            Some(t) => {
                let cs = chars_of(t.as_str());
                let tr = trim_chars(&cs);
                string_from_chars(&tr)
            },
            None => String::from_str("Unknown"),
        }
    } else {
        String::from_str("Unknown")
    }
}

fn reactor_from_groups(groups: &Vec<Option<String>>) -> (r: Option<ReactorInfo>)
    ensures
        match r {
            Some(x) => reactor_of(group_views(groups@)) == Some(reactor_view(x)),
            None => reactor_of(group_views(groups@)) is None,
        },
{
    let name = cell_text(groups, 0);
    let low = to_lowercase(name.as_str());
    if str_contains(low.as_str(), "name") || str_contains(low.as_str(), "reactor") {
        return None;
    }
    let country = cell_text(groups, 1);
    let reactor_type = cell_text(groups, 2);
    let status = cell_text(groups, 3);
    Some(ReactorInfo { name, country, reactor_type, status })
}

/// The reactors that the matches of the row pattern give, in order.
pub fn reactors_from_matches(matches: &Vec<Vec<Option<String>>>) -> (rs: Vec<ReactorInfo>)
    ensures
        ({
            let ms = matches@.map_values(|m: Vec<Option<String>>| group_views(m@));
            rs@.map_values(|r: ReactorInfo| reactor_view(r)) == reactors_of(ms, ms.len() as int)
        }),
{
    let ghost ms = matches@.map_values(|m: Vec<Option<String>>| group_views(m@));
    let mut rs: Vec<ReactorInfo> = Vec::new();
    let mut i: usize = 0;
    while i < matches.len()
        invariant
            ms == matches@.map_values(|m: Vec<Option<String>>| group_views(m@)),
            i <= matches@.len(),
            rs@.map_values(|r: ReactorInfo| reactor_view(r)) == reactors_of(ms, i as int),
        decreases matches.len() - i,
    {
        assert(ms[i as int] == group_views(matches@[i as int]@));
        let ghost before = rs@;
        match reactor_from_groups(&matches[i]) {
            Some(r) => {
                rs.push(r);
                assert(rs@.map_values(|r: ReactorInfo| reactor_view(r)) =~= before.map_values(|r: ReactorInfo| reactor_view(r)).push(reactor_view(r)));
            },
            None => {},
        }
        i = i + 1;
    }
    rs
}

/// A facility marker made from a reactor: where it is, the key its sensor id
/// is made from, that id, and its status as a percentage.
pub struct ReactorMarker {
    pub coordinates: (i32, i32),
    pub sensor_key: String,
    pub sensor_id: u128,
    pub status_value: u32,
}

/// The status of a reactor as a percentage: 100 operational, 50 under
/// construction, 10 decommissioning, else 0.
pub open spec fn status_value(status: Seq<char>) -> u32 {
    let s = lowercase(status);
    if s == "operational"@ { 100 } else if s == "under construction"@ { 50 } else if s == "decommissioning"@ { 10 } else { 0 }
}

/// The key a reactor's sensor id is made from: `iaea-pris-`, then country and
/// name in lower case with spaces made hyphens, joined by a hyphen.
pub open spec fn reactor_key(name: Seq<char>, country: Seq<char>) -> Seq<char> {
    "iaea-pris-"@ + spaces_to_hyphens(lowercase(country)) + "-"@ + spaces_to_hyphens(lowercase(name))
}

fn hyphenated_lower(s: &str) -> (r: String)
    ensures
        r@ == spaces_to_hyphens(lowercase(s@)),
{
    let low = to_lowercase(s);
    let cs = chars_of(low.as_str());
    let h = replace_spaces(&cs);
    string_from_chars(&h)
}

/// The reactor information source.
pub struct IaeaPrisSource;

impl IaeaPrisSource {
    /// The source.
    pub fn new() -> (s: IaeaPrisSource) {
        IaeaPrisSource
    }

    /// Where a facility is, matching its name and country regardless of case;
    /// `(0, 0)` for an unknown facility.
    pub fn get_facility_coordinates(&self, name: &str, country: &str) -> (c: (i32, i32))
        ensures
            c == lookup_facility(facility_table(), lowercase(name@), lowercase(country@)),
    {
        let n = to_lowercase(name);
        let k = to_lowercase(country);
        facility_coordinates(n.as_str(), k.as_str())
    }
    /// The reactors of the table page `html`, header rows left out, in order.
    pub fn parse_pris_html(&self, html: &str) -> (rs: Vec<ReactorInfo>)
        ensures
            match regex_groups(reactor_row_pattern(), html@) {
                Some(ms) => rs@.map_values(|r: ReactorInfo| reactor_view(r)) == reactors_of(ms, ms.len() as int),
                None => rs@.len() == 0,
            },
    {
        let pattern = r#"<tr[^>]*>.*?<td[^>]*>([^<]+)</td>.*?<td[^>]*>([^<]+)</td>.*?<td[^>]*>([^<]+)</td>.*?<td[^>]*>([^<]+)</td>.*?</tr>"#;
        assert(pattern@ == reactor_row_pattern());
        match regex_capture_groups(pattern, html) {
            Some(ms) => reactors_from_matches(&ms),
            None => Vec::new(),
        }
    }

    /// The marker a reactor gives: none where its facility is unknown; else
    /// where it is, its sensor key and its status value.
    pub fn reactor_marker(&self, r: &ReactorInfo) -> (m: Option<ReactorMarker>)
        ensures
            ({
                let c = lookup_facility(facility_table(), lowercase(r.name@), lowercase(r.country@));
                match m {
                    Some(m) => c != (0i32, 0i32) && m.coordinates == c
                        && m.sensor_key@ == reactor_key(r.name@, r.country@)
                        && m.sensor_id == uuid_v5_dns(reactor_key(r.name@, r.country@))
                        && m.status_value == status_value(r.status@),
                    None => c == (0i32, 0i32),
                }
            }),
    {
        let c = self.get_facility_coordinates(r.name.as_str(), r.country.as_str());
        if c.0 == 0 && c.1 == 0 {
            return None;
        }
        let country = hyphenated_lower(r.country.as_str());
        let name = hyphenated_lower(r.name.as_str());
        let a = concat_strs("iaea-pris-", country.as_str());
        let b = concat_strs(a.as_str(), "-");
        let key = concat_strs(b.as_str(), name.as_str());
        let st = to_lowercase(r.status.as_str());
        let v: u32 = if str_eq(st.as_str(), "operational") {
            100
        } else if str_eq(st.as_str(), "under construction") {
            50
        } else if str_eq(st.as_str(), "decommissioning") {
            10
        } else {
            0
        };
        let sensor_id = sensor_uuid(key.as_str());
        Some(ReactorMarker { coordinates: c, sensor_key: key, sensor_id, status_value: v })
    }
}

} // verus!
