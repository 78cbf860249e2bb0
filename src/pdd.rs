use vstd::prelude::*;

use crate::error::{TranslateError, TranslateResult};
use crate::params::{keys_unique, lookup, upsert_param};
use crate::signature::{generate_signature, md5_of, signing_text_spec, upper_hex};

verus! {

/// What the service answers for a translated link.
#[derive(Clone, Debug, Default, PartialEq, Eq)]
pub struct GoodInfo {
    /// Commission rate during a promotion, in thousandths.
    pub activity_promotion_rate: i64,
    /// Predicted commission rate for price-comparison traffic, in thousandths.
    pub predict_promotion_rate: i64,
    /// Commission rate, in thousandths.
    pub promotion_rate: i64,
    /// Coupon value, in cents.
    pub coupon_discount: i64,
    /// Price after the coupon, in cents.
    pub coupon_discount_price: i64,
    /// List price, in cents.
    pub origin_price: i64,
    /// The translated short link.
    pub short_url: String,
}

/// The query of a translate request.
#[derive(Clone, Debug)]
pub struct TranslateLinkParams {
    pub url: String,
}

/// The answer of the goods search API.
#[derive(Clone, Debug)]
pub struct PddGoodsSearchResponse {
    pub goods_search_response: GoodsSearchResponse,
}

#[derive(Clone, Debug)]
pub struct GoodsSearchResponse {
    pub goods_list: Vec<GoodsItem>,
}

/// One goods item of a search answer.
#[derive(Clone, Copy, Debug, PartialEq, Eq, Structural)]
pub struct GoodsItem {
    pub promotion_rate: i64,
    pub predict_promotion_rate: i64,
    pub coupon_discount: i64,
    pub min_group_price: i64,
}

/// The answer of the short-link API.
#[derive(Clone, Debug)]
pub struct PddGoodsZsUnitGenerateResponse {
    pub goods_zs_unit_generate_response: GoodsZsUnitGenerateResponse,
}

#[derive(Clone, Debug)]
pub struct GoodsZsUnitGenerateResponse {
    pub short_url: String,
}

/// An order as the order-detail API reports it.
#[derive(Clone, Debug)]
pub struct OrderDetailResponse {
    pub auth_duo_id: i64,
    pub batch_no: String,
    pub fail_reason: String,
    pub order_status: i8,
    pub promotion_amount: i64,
    pub promotion_rate: i64,
}

/// The part of an order the service reports.
#[derive(Clone, Copy, Debug, PartialEq, Eq, Structural)]
pub struct OrderDetail {
    pub promotion_amount: i64,
    pub order_status: i8,
}

impl GoodsItem {
    /// The price after the coupon fits in an `i64`.
    pub open spec fn price_fits(&self) -> bool {
        i64::MIN <= self.min_group_price - self.coupon_discount <= i64::MAX
    }
}

impl GoodInfo {
    /// The answer built from a goods item: its rates and coupon, its price as
    /// the list price, the price less the coupon as the coupon price, no
    /// promotion rate and no short link yet.
    pub fn from_item(item: &GoodsItem) -> (r: GoodInfo)
        requires
            item.price_fits(),
        ensures
            r.activity_promotion_rate == 0,
            r.predict_promotion_rate == item.predict_promotion_rate,
            r.promotion_rate == item.promotion_rate,
            r.coupon_discount == item.coupon_discount,
            r.coupon_discount_price == item.min_group_price - item.coupon_discount,
            r.origin_price == item.min_group_price,
            r.short_url@.len() == 0,
    {
        GoodInfo {
            activity_promotion_rate: 0,
            predict_promotion_rate: item.predict_promotion_rate,
            promotion_rate: item.promotion_rate,
            coupon_discount: item.coupon_discount,
            coupon_discount_price: item.min_group_price - item.coupon_discount,
            origin_price: item.min_group_price,
            short_url: String::new(),
        }
    }
}

impl PddGoodsSearchResponse {
    /// The answer for the first goods item found, or an internal error when
    /// the search found none.
    pub fn first_good_info(&self) -> (r: TranslateResult<GoodInfo>)
        requires
            self.goods_search_response.goods_list@.len() > 0 ==> self.goods_search_response.goods_list@[0].price_fits(),
        ensures
            self.goods_search_response.goods_list@.len() == 0 ==> (r matches Err(TranslateError::Internal(m)) && m@ == "未找到商品"@),
            self.goods_search_response.goods_list@.len() > 0 ==> (r matches Ok(g) && {
                let item = self.goods_search_response.goods_list@[0];
                &&& g.activity_promotion_rate == 0
                &&& g.predict_promotion_rate == item.predict_promotion_rate
                &&& g.promotion_rate == item.promotion_rate
                &&& g.coupon_discount == item.coupon_discount
                &&& g.coupon_discount_price == item.min_group_price - item.coupon_discount
                &&& g.origin_price == item.min_group_price
                &&& g.short_url@.len() == 0
            }),
    {
        if self.goods_search_response.goods_list.len() == 0 {
            Err(TranslateError::Internal(String::from_str("未找到商品")))
        } else {
            Ok(GoodInfo::from_item(&self.goods_search_response.goods_list[0]))
        }
    }
}

/// The credentials and endpoints of the Pinduoduo open API.
#[derive(Clone)]
pub struct Pdd {
    pub domain: String,
    pub client_id: String,
    pub client_secret: String,
    pub pid: String,
    pub api_good_search: String,
    pub api_gen_short_url: String,
}

impl Pdd {
    /// The common parameters of every call: the client's id and secret, the
    /// API's name, the time of the call and the answer format (`JSON`).
    pub open spec fn base_param(
        &self,
        api_type: Seq<char>,
        timestamp: Seq<char>,
        key: Seq<char>,
    ) -> Option<Seq<char>> {
        if key == "data_type"@ {
            Some("JSON"@)
        } else if key == "timestamp"@ {
            Some(timestamp)
        } else if key == "type"@ {
            Some(api_type)
        } else if key == "client_secret"@ {
            Some(self.client_secret@)
        } else if key == "client_id"@ {
            Some(self.client_id@)
        } else {
            None
        }
    }

    /// The unsigned parameters of a call: the common ones, overridden by
    /// `extra` where both name a key.
    pub fn request_params(&self, api_type: &str, timestamp: &str, extra: &Vec<(String, String)>) -> (r:
        Vec<(String, String)>)
        ensures
            keys_unique(r@),
            forall|k: Seq<char>|
                #[trigger] lookup(r@, k) == if lookup(extra@, k) is Some {
                    lookup(extra@, k)
                } else {
                    self.base_param(api_type@, timestamp@, k)
                },
    {
        let mut body: Vec<(String, String)> = Vec::new();
        upsert_param(&mut body, String::from_str("client_id"), self.client_id.clone());
        upsert_param(&mut body, String::from_str("client_secret"), self.client_secret.clone());
        upsert_param(&mut body, String::from_str("type"), String::from_str(api_type));
        upsert_param(&mut body, String::from_str("timestamp"), String::from_str(timestamp));
        upsert_param(&mut body, String::from_str("data_type"), String::from_str("JSON"));
        let n = extra.len();
        let mut i: usize = 0;
        while i < n
            invariant
                n == extra@.len(),
                i <= n,
                keys_unique(body@),
                forall|k: Seq<char>|
                    #[trigger] lookup(body@, k) == if lookup(extra@.subrange(0, i as int), k) is Some {
                        lookup(extra@.subrange(0, i as int), k)
                    } else {
                        self.base_param(api_type@, timestamp@, k)
                    },
            decreases n - i,
        {
            let p = &extra[i];
            upsert_param(&mut body, p.0.clone(), p.1.clone());
            proof {
                let pre = extra@.subrange(0, i + 1);
                assert(pre.drop_last() =~= extra@.subrange(0, i as int));
                assert(pre.last() == extra@[i as int]);
            }
            i = i + 1;
        }
        assert(extra@.subrange(0, n as int) =~= extra@);
        body
    }

    /// The parameters of a call as sent: `request_params`, with `sign` set to
    /// the signature of those parameters under the client's secret.
    pub fn signed_params(&self, api_type: &str, timestamp: &str, extra: &Vec<(String, String)>) -> (r:
        Vec<(String, String)>)
        ensures
            keys_unique(r@),
            exists|unsigned: Seq<(String, String)>|
                {
                    &&& keys_unique(unsigned)
                    &&& forall|k: Seq<char>|
                        #[trigger] lookup(unsigned, k) == if lookup(extra@, k) is Some {
                            lookup(extra@, k)
                        } else {
                            self.base_param(api_type@, timestamp@, k)
                        }
                    &&& forall|k: Seq<char>|
                        #[trigger] lookup(r@, k) == if k == "sign"@ {
                            Some(upper_hex(md5_of(signing_text_spec(unsigned, self.client_secret@))))
                        } else {
                            lookup(unsigned, k)
                        }
                },
    {
        let mut body = self.request_params(api_type, timestamp, extra);
        let ghost unsigned = body@;
        let sign = generate_signature(&body, self.client_secret.as_str());
        upsert_param(&mut body, String::from_str("sign"), sign);
        body
    }
}

} // verus!
