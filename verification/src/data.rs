//! The embedded dataset of disposable and temporary email domains, in
//! parts: one lowercase domain per line, sorted across the parts, without
//! blank lines or duplicates.
use vstd::prelude::*;

verus! {

/// Disposable domains from `0-mail.com` to `dumpyemail.com`.
pub const DOMAINS_PART_1: &'static str = "\
0-mail.com
027168.com
0815.ru
0815.ry
0815.su
0845.ru
0box.eu
0clickemail.com
0n0ff.net
0nelce.com
0v.ro
0w.ro
0wnd.net
0wnd.org
0x207.info
1-8.biz
1000rebates.stream
100likers.com
105kg.ru
10dk.email
10mail.com
10mail.org
10mail.tk
10mails.net
10minmail.de
10minut.com.pl
10minut.xyz
10minutemail.be
10minutemail.cf
10minutemail.co.uk
10minutemail.co.za
10minutemail.com
10minutemail.de
10minutemail.ga
10minutemail.gq
10minutemail.ml
10minutemail.net
10minutemail.nl
10minutemail.pro
10minutemail.us
10minutemailbox.com
10minutemails.in
10minutenemail.de
10minutenmail.xyz
10minutesmail.com
10minutesmail.fr
10minutmail.pl
10x9.com
11163.com
123-m.com
12hosting.net
12houremail.com
12minutemail.com
12minutemail.net
12storage.com
140unichars.com
147.cl
14n.co.uk
15qm.com
1blackmoon.com
1ce.us
1chuan.com
1clck2.com
1fsdfdsfsdf.tk
1mail.ml
1pad.de
1s.fr
1secmail.com
1secmail.net
1secmail.org
1st-forms.com
1to1mail.org
1usemail.com
1webmail.info
1zhuan.com
2012-2016.ru
20email.eu
20email.it
20mail.eu
20mail.in
20mail.it
20minutemail.com
20minutemail.it
20mm.eu
2120001.net
24hourmail.com
24hourmail.net
2anom.com
2fdgdfgdfgdf.tk
2prong.com
30minutemail.com
30wave.com
33mail.com
36ru.com
3d-painting.com
3l6.com
3mail.ga
3trtretgfrfe.tk
4-n.us
418.dk
42o.org
4gfdsgfdgfd.tk
4mail.cf
4mail.ga
4warding.com
4warding.net
4warding.org
5ghgfhfghfgh.tk
5gramos.com
5mail.cf
5mail.ga
5oz.ru
5x25.com
60minutemail.com
672643.net
675hosting.com
675hosting.net
675hosting.org
6hjgjhgkilkj.tk
6ip.us
6mail.cf
6mail.ga
6mail.ml
6paq.com
6url.com
75hosting.com
75hosting.net
75hosting.org
7days-printing.com
7mail.ga
7mail.ml
7tags.com
80665.com
8127ep.com
8mail.cf
8mail.ga
8mail.ml
99experts.com
9mail.cf
9me.site
9ox.net
9q.ro
a-bc.net
a45.in
a7996.com
aa5zy64.com
abacuswe.us
abakiss.com
abcmail.email
abilitywe.us
abovewe.us
absolutewe.us
abundantwe.us
abusemail.de
abuser.eu
abyssmail.com
ac20mail.in
academiccommunity.com
academywe.us
acceleratewe.us
accentwe.us
acceptwe.us
acclaimwe.us
accordwe.us
accreditedwe.us
acentri.com
achievementwe.us
achievewe.us
acornwe.us
acrylicwe.us
activatewe.us
activitywe.us
acuitywe.us
acumenwe.us
adaptivewe.us
adaptwe.us
add3000.pp.ua
addictingtrailers.com
adeptwe.us
adiq.eu
aditus.info
admiralwe.us
adobeccepdm.com
adpugh.org
adroh.com
adsd.org
adubiz.info
advantagewe.us
advantimo.com
adventurewe.us
adventwe.us
advisorwe.us
advocatewe.us
adwaterandstir.com
aegde.com
aegiswe.us
aelo.es
aeonpsi.com
affiliate-nebenverdienst.de
affiliatedwe.us
affinitywe.us
affluentwe.us
affordablewe.us
afrobacon.com
afterpeg.com
agedmail.com
agendawe.us
agger.ro
agilewe.us
agorawe.us
ahk.jp
ajaxapp.net
akapost.com
akerd.com
al-qaeda.us
aligamel.com
alisongamel.com
alivance.com
alldirectbuy.com
allowed.org
allthegoodnamesaretaken.org
alph.wtf
ama-trade.de
ama-trans.de
amail4.me
amazon-aws.org
amelabs.com
amilegit.com
amiri.net
amiriindustries.com
anappfor.com
anappthat.com
andthen.us
animesos.com
anit.ro
ano-mail.net
anon-mail.de
anonbox.net
anonmails.de
anonymail.dk
anonymbox.com
anonymized.org
anonymousness.com
ansibleemail.com
anthony-junkmail.com
antireg.com
antireg.ru
antispam.de
antispam24.de
antispammail.de
apfelkorps.de
aphlog.com
appc.se
appinventor.nl
appixie.com
apps.dj
arduino.hk
armyspy.com
aron.us
arroisijewellery.com
artman-conception.com
arurgitu.gq
arvato-community.de
aschenbrandt.net
asdasd.nl
asdasd.ru
ashleyandrew.com
ask-mail.com
asorent.com
ass.pp.ua
astroempires.info
asu.mx
asu.su
at0mik.org
atvclub.msk.ru
augmentationtechnology.com
auti.st
autorobotica.com
autotwollow.com
avls.pt
awatum.de
awiki.org
axiz.org
azcomputerworks.com
azmeil.tk
b1of96u.com
b2cmail.de
badgerland.eu
badoop.com
barryogorman.com
basscode.org
bauwerke-online.com
baxomale.ht.cx
bazaaboom.com
bcast.ws
bccto.me
bearsarefuzzy.com
beddly.com
beefmilk.com
belljonestax.com
benipaula.org
bestchoiceusedcar.com
betr.co
bgtmail.com
bgx.ro
bidourlnks.com
big1.us
bigprofessor.so
bigwhoop.co.za
bij.pl
binka.me
binkmail.com
bio-muesli.info
bio-muesli.net
bione.co
birdsfly.press
bitwhites.top
bitymails.us
blackmarket.to
bladesmail.net
blip.ch
blnkt.net
blogmyway.org
blogos.net
blogspam.ro
blondemorkin.com
bluedumpling.info
bluewerks.com
bnote.com
boatmail.us
bobmail.info
bobmurchison.com
bofthew.com
bonobo.email
bookthemmore.com
bootybay.de
borged.com
borged.net
borged.org
boun.cr
bouncr.com
boxformail.in
boximail.com
boxtemp.com.br
brandallday.net
brasx.org
brefmail.com
brennendesreich.de
briggsmarcus.com
broadbandninja.com
bsnow.net
bspamfree.org
bspooky.com
bst-72.com
btb-notes.com
btc.email
btcmail.pw
btizet.pl
buffemail.com
bugmenever.com
bugmenot.com
bulrushpress.com
bum.net
bumpymail.com
bunchofidiots.com
bund.us
bundes-li.ga
bunsenhoneydew.com
burnthespam.info
burstmail.info
businessbackend.com
businesssuccessislifesuccess.com
buspad.org
bussitussi.com
buymoreplays.com
buyordie.info
buyusedlibrarybooks.org
buzzcluby.com
byebyemail.com
byespm.com
byom.de
c2.hu
c51vsgq.com
cachedot.net
californiafitnessdeals.com
cam4you.cc
camping-grill.info
candymail.de
cane.pw
car101.pro
carbtc.net
cars2.club
carsencyclopedia.com
casualdx.com
cbair.com
ccmail.uk
cdpa.cc
ceed.se
cek.pm
cellurl.com
chacuo.net
chammy.info
cheaphub.net
cheatmail.de
chewiemail.com
chibakenma.ml
chielo.com
childsavetrust.org
chithinh.com
chogmail.com
choicemail1.com
chong-mail.com
chong-mail.net
chong-mail.org
chumpstakingdumps.com
cigar-auctions.com
civikli.com
civx.org
clandest.in
clearwatermail.info
clickdeal.co
clipmail.eu
clixser.com
clrmail.com
cmail.club
cnamed.com
cnew.ir
cnmsg.net
cnsds.de
cobarekyo1.ml
codeandscotch.com
codivide.com
coieo.com
coldemail.info
compareshippingrates.org
completegolfswing.com
comwest.de
consumerriot.com
cool.fr.nf
coolandwacky.us
coolimpool.org
cosmorph.com
courriel.fr.nf
courrieltemporaire.com
coza.ro
crankhole.com
crapmail.org
crastination.de
crazespaces.pw
crazymailing.com
crossroadsmail.com
cszbl.com
ctos.ch
cubiclink.com
curryworld.de
cust.in
cuvox.de
cyber-innovation.club
cyber-phone.eu
cylab.org
d3p.dk
dab.ro
dacoolest.com
daemsteam.com
daintly.com
dammexe.net
dandikmail.com
darkharvestfilms.com
daryxfox.net
dash-pads.com
dataarca.com
datafilehost.com
datarca.com
datazo.ca
davidkoh.net
davidlcreative.com
dayrep.com
dbunker.com
dcemail.com
ddcrew.com
dea-21olympic.com
deadaddress.com
deadchildren.org
deadfake.cf
deadfake.ga
deadfake.ml
deadfake.tk
deadspam.com
deagot.com
dealja.com
dealrek.com
deekayen.us
defomail.com
degradedfun.net
delayload.com
delayload.net
delikkt.de
der-kombi.de
derkombi.de
derluxuswagen.de
despam.it
despammed.com
devnullmail.com
dharmatel.net
diapaulpainting.com
digitalmariachis.com
digitalsanctuary.com
dildosfromspace.com
dim-coin.com
dingbone.com
disbox.net
disbox.org
discard.cf
discard.email
discard.ga
discard.gq
discard.ml
discard.tk
discardmail.com
discardmail.de
discos4.com
dispmailproject.info
dispomail.eu
disposable-email.ml
disposable.cf
disposable.ga
disposable.ml
disposableaddress.com
disposableemailaddresses.com
disposableinbox.com
disposablemail.space
disposablemails.com
dispose.it
disposeamail.com
disposemail.com
dispostable.com
divad.ga
divermail.com
divismail.ru
dlemail.ru
dmarc.ro
dndent.com
dnses.ro
doanart.com
dob.jp
dodgeit.com
dodgemail.de
dodgit.com
dodgit.org
dodsi.com
doiea.com
domforfb1.tk
domforfb18.tk
domforfb19.tk
domforfb2.tk
domforfb23.tk
domforfb27.tk
domforfb29.tk
domforfb3.tk
domforfb4.tk
domforfb5.tk
domforfb6.tk
domforfb7.tk
domforfb8.tk
domforfb9.tk
domozmail.com
donemail.ru
dongqing365.com
dontreg.com
dontsendmespam.de
doojazz.com
doquier.tk
dotman.de
dotmsg.com
dotslashrage.com
douchelounge.com
dozvon-spb.ru
dp76.com
dr69.site
drdrb.com
drdrb.net
dred.ru
drivetagdev.com
droolingfanboy.de
dropcake.de
droplar.com
dropmail.me
dspwebservices.com
duam.net
dudmail.com
duk33.com
dukedish.com
dump-email.info
dumpandjunk.com
dumpmail.de
dumpyemail.com";

/// Disposable domains from `durandinterstellar.com` to `locanto1.club`.
pub const DOMAINS_PART_2: &'static str = "\
durandinterstellar.com
duskmail.com
dwse.edu.pl
dyceroprojects.com
dz17.net
e3z.de
e4ward.com
easy-trash-mail.com
easytrashmail.com
ebeschlussbuch.de
ecallheandi.com
edgex.ru
edinburgh-airporthotels.com
edv.to
ee1.pl
ee2.pl
eelmail.com
efxs.ca
einmalmail.de
einrot.com
einrot.de
eintagsmail.de
elearningjournal.org
electro.mn
elitevipatlantamodels.com
email-fake.cf
email-fake.com
email-fake.ga
email-fake.gq
email-fake.ml
email-fake.tk
email-jetable.fr
email-lab.com
email60.com
emailage.cf
emailage.ga
emailage.gq
emailage.ml
emailage.tk
emaildienst.de
emailfake.com
emailfake.ml
emailfreedom.ml
emailgo.de
emailias.com
emailigo.de
emailinfive.com
emailisvalid.com
emaillime.com
emailmiser.com
emailna.co
emailo.pro
emailondeck.com
emailportal.info
emailproxsy.com
emailresort.com
emails.ga
emailsensei.com
emailsingularity.net
emailspam.cf
emailspam.ga
emailspam.gq
emailspam.ml
emailspam.tk
emailtemporanea.com
emailtemporanea.net
emailtemporar.ro
emailtemporario.com.br
emailthe.net
emailtmp.com
emailto.de
emailwarden.com
emailx.at.hm
emailxfer.com
emailz.cf
emailz.ga
emailz.gq
emailz.ml
emeil.in
emeil.ir
emeraldwebmail.com
emkei.cf
emkei.ga
emkei.gq
emkei.ml
emkei.tk
eml.pp.ua
emlhub.com
emlpro.com
emltmp.com
empireanime.ga
emz.net
enterto.com
ephemail.net
ephemeral.email
ericjohnson.ml
ero-tube.org
esc.la
escapehatchapp.com
esemay.com
esgeneri.com
esprity.com
etgdev.de
ether123.net
etranquil.com
etranquil.net
etranquil.org
euaqa.com
evanfox.info
evilcomputer.com
evopo.com
evyush.com
exitstageleft.net
explodemail.com
express.net.ua
extremail.ru
eyepaste.com
ez.lv
ezfill.com
ezstest.com
f4k.es
facebook-email.cf
facebook-email.ga
facebook-email.ml
facebookmail.gq
facebookmail.ml
fadingemail.com
fag.wf
failbone.com
faithkills.com
fake-box.com
fake-email.pp.ua
fake-mail.cf
fake-mail.ga
fake-mail.ml
fakeinbox.cf
fakeinbox.com
fakeinbox.ga
fakeinbox.ml
fakeinbox.tk
fakeinformation.com
fakemail.fr
fakemailgenerator.com
fakemailz.com
fammix.com
fangoh.com
fansworldwide.de
fantasymail.de
farrse.co.uk
fastacura.com
fastchevy.com
fastchrysler.com
fastkawasaki.com
fastmazda.com
fastmitsubishi.com
fastnissan.com
fastsubaru.com
fastsuzuki.com
fasttoyota.com
fastyamaha.com
fatflap.com
fdfdsfds.com
fer-gabon.org
fettometern.com
fictionsite.com
fightallspam.com
figjs.com
figshot.com
fiifke.de
filbert4u.com
filberts4u.com
film-blog.biz
filzmail.com
findu.pl
fir.hk
fivemail.de
fixmail.tk
fizmail.com
fleckens.hu
flemail.ru
flowu.com
flurred.com
fly-ts.de
flyinggeek.net
flyspam.com
foobarbot.net
footard.com
forecastertests.com
forgetmail.com
fornow.eu
forspam.net
foxja.com
foxtrotter.info
fr33mail.info
frapmail.com
free-email.cf
free-email.ga
freebabysittercam.com
freeblackbootytube.com
freedompop.us
freefattymovies.com
freeletter.me
freemails.cf
freemails.ga
freemails.ml
freeplumpervideos.com
freeschoolgirlvids.com
freesistercam.com
freeteenbums.com
freundin.ru
friendlymail.co.uk
front14.org
ftp.sh
ftpinc.ca
fuckedupload.com
fuckingduh.com
fudgerub.com
fuirio.com
fulvie.com
fun64.com
fun64.net
funnycodesnippets.com
furzauflunge.de
fux0ringduh.com
fxnxs.com
fyii.de
g4hdrop.us
gafy.net
gally.jp
gamail.top
gamegregious.com
garbagecollector.org
garbagemail.org
gardenscape.ca
garizo.com
garliclife.com
garrymccooey.com
gav0.com
gehensiemirnichtaufdensack.de
geldwaschmaschine.de
gelitik.in
genderfuck.net
geschent.biz
get-mail.cf
get-mail.ga
get-mail.ml
get-mail.tk
get1mail.com
get2mail.fr
getairmail.cf
getairmail.com
getairmail.ga
getairmail.gq
getairmail.ml
getairmail.tk
geteit.com
getmails.eu
getnada.com
getnowtoday.cf
getonemail.com
getonemail.net
ghosttexter.de
giaiphapmuasam.com
giantmail.de
ginzi.be
ginzi.co.uk
ginzi.es
ginzi.net
ginzy.co.uk
ginzy.eu
girlsindetention.com
girlsundertheinfluence.com
gishpuppy.com
glitch.sx
globaltouron.com
glucosegrin.com
gmx1mail.top
gnctr-calgary.com
goemailgo.com
gomail.in
gorillaswithdirtyarmpits.com
gothere.biz
gotmail.com
gotmail.net
gotmail.org
gotti.otherinbox.com
gowikibooks.com
gowikicampus.com
gowikicars.com
gowikifilms.com
gowikigames.com
gowikimusic.com
gowikinetwork.com
gowikitravel.com
gowikitv.com
grandmamail.com
grandmasmail.com
great-host.in
greensloth.com
greggamel.com
greggamel.net
gregorsky.zone
gregorygamel.com
gregorygamel.net
grr.la
gsrv.co.uk
guerillamail.biz
guerillamail.com
guerillamail.de
guerillamail.info
guerillamail.net
guerillamail.org
guerillamailblock.com
guerrillamail.biz
guerrillamail.com
guerrillamail.de
guerrillamail.info
guerrillamail.net
guerrillamail.org
guerrillamailblock.com
gustr.com
gynzi.co.uk
gynzi.es
gynzy.at
gynzy.es
gynzy.eu
gynzy.gr
gynzy.info
gynzy.lt
gynzy.mobi
gynzy.pl
gynzy.ro
gynzy.sk
h.mintemail.com
h8s.org
habitue.net
hacccc.com
hackthatbit.ch
hahawrong.com
haltospam.com
haqed.com
harakirimail.com
haribu.com
hartbot.de
hat-geld.de
hatespam.org
hawrong.com
hazelnut4u.com
hazelnuts4u.com
hazmatshipping.org
headstrong.de
heathenhammer.com
heathenhero.com
hecat.es
hellodream.mobi
helloricky.com
helpinghandtaxcenter.org
herp.in
herpderp.nl
hi5.si
hiddentragedy.com
hidemail.de
hidemail.pro
hidemail.us
hidzz.com
hmail.us
hmamail.com
hmh.ro
hoanggiaanh.com
hochsitze.com
hopemail.biz
hot-mail.cf
hot-mail.ga
hot-mail.gq
hot-mail.ml
hot-mail.tk
hotpop.com
hpc.tw
hs.vc
hukkmu.tk
hulapla.de
humaility.com
humn.ws.gy
hungpackage.com
hushmail.cf
huskion.net
hvastudiesucces.nl
hwsye.net
i2pmail.org
i6.cloudns.cc
iaoss.com
ibnuh.bz
icantbelieveineedtoexplainthisshit.com
icemail.club
ichigo.me
icx.in
icx.ro
ieatspam.eu
ieatspam.info
ieh-mail.de
ige.es
ignoremail.com
ihateyoualot.info
iheartspam.org
ikbenspamvrij.nl
illistnoise.com
ilovespam.com
imails.info
imgof.com
imgv.de
imstations.com
inbax.tk
inbound.plus
inbox.si
inbox2.info
inboxalias.com
inboxbear.com
inboxclean.com
inboxclean.org
inboxdesign.me
inboxed.im
inboxed.pw
inboxkitten.com
inboxproxy.com
inboxstore.me
inclusiveprogress.com
incognitomail.com
incognitomail.net
incognitomail.org
incq.com
ind.st
indieclad.com
indirect.ws
ineec.net
infocom.zp.ua
inggo.org
inmynetwork.tk
inoutmail.de
inoutmail.eu
inoutmail.info
inoutmail.net
insanumingeniumhomebrew.com
insorg-mail.info
instance-email.com
instant-mail.de
instantemailaddress.com
instantlyemail.com
internet-v-stavropole.ru
internetoftags.com
interstats.org
intersteller.com
iozak.com
ip4.pp.ua
ip6.li
ip6.pp.ua
ipoo.org
irabops.com
irc.so
irishspringrealty.com
iroid.com
ironiebehindert.de
irssi.tv
isdaq.com
isosq.com
istii.ro
isukrainestillacountry.com
it7.ovh
itunesgiftcodegenerator.com
ixx.io
j-p.us
jafps.com
jajxz.com
janproz.com
jaqis.com
jdmadventures.com
jdz.ro
jellyrolls.com
jet-renovation.fr
jetable.com
jetable.fr.nf
jetable.net
jetable.org
jetable.pp.ua
jmail.ovh
jmail.ro
jnxjn.com
jobbikszimpatizans.hu
jobposts.net
jobs-to-be-done.net
joelpet.com
joetestalot.com
jopho.com
jourrapide.com
jpco.org
jsrsolutions.com
jungkamushukum.com
junk.to
junk1e.com
junkmail.ga
junkmail.gq
jupimail.com
just-email.com
justemail.ml
justnowmail.com
jwork.ru
kakadua.net
kalapi.org
kamsg.com
kaovo.com
kariplan.com
kartvelo.com
kasmail.com
kaspop.com
kcrw.de
keepmymail.com
keinhirn.de
keipino.de
kemptvillebaseball.com
kennedy808.com
killmail.com
killmail.net
kimsdisk.com
kingsq.ga
kiois.com
kir.ch.tc
kismail.ru
kisstwink.com
kitnastar.com
klassmaster.com
klassmaster.net
klick-tipp.us
klipschx12.com
kloap.com
kludgemush.com
klzlk.com
kmhow.com
kommunity.biz
kon42.com
kook.ml
kopagas.com
kopaka.net
kosmetik-obatkuat.com
kostenlosemailadresse.de
koszmail.pl
krypton.tk
kuhrap.com
kulturbetrieb.info
kurzepost.de
kwift.net
kwilco.net
kyal.pl
l-c-a.us
l33r.eu
labetteraverouge.at
lacedmail.com
lackmail.net
lackmail.ru
lacto.info
lags.us
lain.ch
lakelivingstonrealestate.com
landmail.co
laoeq.com
lastmail.co
lastmail.com
lawlita.com
lazyinbox.com
lazyinbox.us
ldaho.biz
ldop.com
ldtp.com
lee.mx
leeching.net
lellno.gq
letmeinonthis.com
letthemeatspam.com
lez.se
lhsdv.com
liamcyrus.com
lifebyfood.com
lifetotech.com
ligsb.com
lilo.me
lindenbaumjapan.com
link2mail.net
linkedintuts2016.pw
linuxmail.so
litedrop.com
liveradio.tk
lkgn.se
llogin.ru
loadby.us
loan101.pro
loaoa.com
loapq.com
locanto1.club";

/// Disposable domains from `locomodev.net` to `silvercoin.life`.
pub const DOMAINS_PART_3: &'static str = "\
locomodev.net
login-email.cf
login-email.ga
login-email.ml
login-email.tk
logular.com
loin.in
lol.ovpn.to
lolfreak.net
lolmail.biz
lookugly.com
lopl.co.cc
lortemail.dk
losemymail.com
lovemeleaveme.com
lpfmgmtltd.com
lr7.us
lr78.com
lroid.com
lru.me
luckymail.org
lukecarriere.com
lukemail.info
lukop.dk
luv2.us
lyfestylecreditsolutions.com
m21.cc
m4ilweb.info
maboard.com
macromaid.com
macromice.info
magamail.com
maggotymeat.ga
magicbox.ro
maidlow.info
mail-card.net
mail-easy.fr
mail-filter.com
mail-help.net
mail-hub.info
mail-it24.com
mail-owl.com
mail-temp.com
mail-temporaire.com
mail-temporaire.fr
mail-tester.com
mail.mezimages.net
mail.wtf
mail0.ga
mail1.top
mail114.net
mail1a.de
mail21.cc
mail2rss.org
mail333.com
mail4trash.com
mail666.ru
mail7.io
mail72.com
mailapp.top
mailback.com
mailbidon.com
mailbiz.biz
mailbox52.ga
mailbox80.biz
mailbox82.biz
mailbox92.biz
mailcat.biz
mailcatch.com
mailchop.com
mailcker.com
maildax.me
mailde.de
mailde.info
maildrop.cc
maildrop.cf
maildrop.ga
maildrop.gq
maildrop.ml
maildu.de
maildx.com
maileater.com
mailed.in
mailed.ro
maileimer.de
mailexpire.com
mailfa.tk
mailforspam.com
mailfree.ga
mailfree.gq
mailfree.ml
mailfreeonline.com
mailfs.com
mailguard.me
mailhazard.com
mailhazard.us
mailhz.me
mailimate.com
mailin8r.com
mailinatar.com
mailinater.com
mailinator.co.uk
mailinator.com
mailinator.gq
mailinator.info
mailinator.net
mailinator.org
mailinator.us
mailinator2.com
mailincubator.com
mailismagic.com
mailita.tk
mailjunk.cf
mailjunk.ga
mailjunk.gq
mailjunk.ml
mailjunk.tk
mailme.gq
mailme.ir
mailme.lv
mailme24.com
mailmetrash.com
mailmoat.com
mailms.com
mailnator.com
mailnesia.com
mailnull.com
mailonaut.com
mailorc.com
mailorg.org
mailpick.biz
mailpooch.com
mailproxsy.com
mailquack.com
mailrock.biz
mailsac.com
mailscrap.com
mailseal.de
mailshell.com
mailsiphon.com
mailslapping.com
mailslite.com
mailspam.me
mailspam.xyz
mailtemp.info
mailtemporaire.com
mailtemporaire.fr
mailtome.de
mailtothis.com
mailtrash.net
mailtv.net
mailtv.tv
mailzi.ru
mailzilla.com
mailzilla.org
makemetheking.com
malahov.de
malayalamdtp.com
mansiondev.com
manybrain.com
markmurfin.com
mbx.cc
mcache.net
mciek.com
mega.zik.dyndns.org
meinspamschutz.de
meltedbrownies.com
meltmail.com
messagebeamer.de
messagesafe.co
mezimages.net
mfsa.ru
miaferrari.com
midcoastcustoms.com
midcoastcustoms.net
midcoastsolutions.com
midcoastsolutions.net
midlertidig.com
midlertidig.net
midlertidig.org
mierdamail.com
migmail.net
migmail.pl
migumail.com
mijnhva.nl
minimail.gq
ministry-of-silly-walks.de
minsmail.com
mintemail.com
misterpinball.de
mji.ro
mjukglass.nu
mkpfilm.com
ml8.ca
mm5.se
moakt.cc
moakt.co
moakt.com
moakt.ws
mobi.web.id
mobileninja.co.uk
moburl.com
mockmyid.com
moeri.org
mohmal.com
mohmal.im
mohmal.in
mohmal.tech
momentics.ru
moncourrier.fr.nf
monemail.fr.nf
moneypipe.net
monmail.fr.nf
monumentmail.com
moonwake.com
mor19.uu.gl
moreawesomethanyou.com
moreorcs.com
motique.de
mountainregionallibrary.net
mox.pp.ua
ms9.mailslite.com
msa.minsmail.com
msgos.com
mspeciosa.com
msrc.ml
mswork.ru
msxd.com
mt2009.com
mt2014.com
mt2015.com
mtmdev.com
muathegame.com
muchomail.com
mucincanon.com
mutant.me
mwarner.org
mxfuel.com
my10minutemail.com
mybitti.de
mycleaninbox.net
mycorneroftheinter.net
mydemo.equipment
myecho.es
myemailboxy.com
mykickassideas.com
mymail-in.net
mymailoasis.com
mynetstore.de
myopang.com
mypartyclip.de
myphantomemail.com
mysamp.de
myspaceinc.com
myspaceinc.net
myspaceinc.org
myspacepimpedup.com
myspamless.com
mytemp.email
mytempemail.com
mytempmail.com
mytrashmail.com
mywarnernet.net
myzx.com
n1nja.org
nabuma.com
nakedtruth.biz
nanonym.ch
nationalgardeningclub.com
negated.com
neko2.net
neomailbox.com
nepwk.com
nervmich.net
nervtmich.net
netmails.com
netmails.net
netricity.nl
netris.net
netviewer-france.com
netzidiot.de
nevermail.de
newbpotato.tk
newideasfornewpeople.info
newmail.top
next.ovh
nextstopvalhalla.com
nezdiro.org
nfast.net
nguyenusedcars.com
nice-4u.com
nicknassar.com
nincsmail.hu
niwl.net
nmail.cf
nnot.net
no-spam.ws
no-ux.com
noblepioneer.com
nobugmail.com
nobulk.com
nobuma.com
noclickemail.com
nodezine.com
nogmailspam.info
noicd.com
nokiamail.com
nolemail.ga
nomail.cf
nomail.ga
nomail.pw
nomail.xl.cx
nomail2me.com
nomorespamemails.com
nonspam.eu
nonspammer.de
nonze.ro
noref.in
norseforce.com
nospam.ze.tc
nospam4.us
nospamfor.us
nospamthanks.info
nothingtoseehere.ca
notmailinator.com
notrnailinator.com
notsharingmy.info
now.im
nowmymail.com
ntlhelp.net
nubescontrol.com
nullbox.info
nurfuerspam.de
nut.cc
nutpa.net
nwldx.com
ny7.me
o2stk.org
o7i.net
oalsp.com
obfusko.com
objectmail.com
oblivionchecklist.com
obobbo.com
obxpestcontrol.com
odaymail.com
odnorazovoe.ru
oerpub.org
offshore-proxies.net
ohaaa.de
ohi.tw
okclprojects.com
okrent.us
okzk.com
olypmall.ru
omail.pro
omnievents.org
one-time.email
oneoffemail.com
oneoffmail.com
onewaymail.com
onlatedotcom.info
onlineidea.info
onqin.com
ontyne.biz
oolus.com
oopi.org
opayq.com
opendns.ro
opmmedia.ga
opp24.com
ordinaryamerican.net
oreidresume.com
oshietechan.link
otherinbox.com
ourklips.com
ourpreschools.net
outlawspam.com
ovpn.to
owlpic.com
ownsyou.de
oxopoha.com
ozyl.de
pa9e.com
pagamenti.tk
pancakemail.com
paplease.com
parlimentpetitioner.tk
pastebitch.com
pavilionx2.com
pecinan.com
pecinan.net
pecinan.org
penisgoes.in
pepbot.com
peterdethier.com
petrzilka.net
pfui.ru
photomark.net
phpbb.uu.gl
pi.vu
pimpedupmyspace.com
pinehill-seattle.org
pingir.com
pisls.com
pjjkp.com
plexolan.de
plhk.ru
plw.me
poh.pp.ua
pojok.ml
pokemail.net
pokiemobile.com
politikerclub.de
pooae.com
poofy.org
pookmail.com
poopiebutt.club
popesodomy.com
popgx.com
porsh.net
posdz.com
posta.store
postacin.com
postonline.me
poutineyourface.com
powered.name
powlearn.com
ppetw.com
predatorrat.cf
predatorrat.ga
predatorrat.gq
predatorrat.ml
predatorrat.tk
premium-mail.fr
primabananen.net
prin.be
privatdemail.net
privy-mail.com
privy-mail.de
privymail.de
pro-tag.org
procrackers.com
projectcl.com
propscore.com
proxymail.eu
proxyparking.com
prtnx.com
prtz.eu
psh.me
psles.com
psoxs.com
puglieisi.com
puji.pro
punkass.com
purcell.email
purelogistics.org
put2.net
putthisinyourspamdatabase.com
pwrby.com
qasti.com
qbfree.us
qc.to
qibl.at
qiq.us
qisdo.com
qisoa.com
qoika.com
qsl.ro
qtum-ico.com
quadrafit.com
quickinbox.com
quickmail.nl
qvy.me
qwickmail.com
r4nd0m.de
ra3.us
rabin.ca
rabiot.reisen
raetp9.com
rainbowly.ml
raketenmann.de
rancidhome.net
randomail.net
rbb.org
rcasd.com
rcpt.at
rdklcrv.xyz
re-gister.com
reallymymail.com
realtyalerts.ca
rebates.stream
receiveee.com
recipeforfailure.com
recode.me
reconmail.com
recursor.net
recyclemail.dk
redfeathercrow.com
regbypass.com
rejectmail.com
reliable-mail.com
remail.cf
remail.ga
remarkable.rocks
remote.li
reptilegenetics.com
revolvingdoorhoax.org
rhyta.com
richfinances.pw
riddermark.de
rinseart.com
risingsuntouch.com
riski.cf
rklips.com
rmqkr.net
rnailinator.com
robertspcrepair.com
ronnierage.net
rotaniliam.com
rowe-solutions.com
royaldoodles.org
rppkn.com
rtrtr.com
ruffrey.com
rumgel.com
runi.ca
rustydoor.com
rvb.ro
s0ny.net
s33db0x.com
sabrestlouis.com
sackboii.com
safersignup.de
safetymail.info
safetypost.de
saharanightstempe.com
samsclass.info
sandelf.de
sandwhichvideo.com
sanfinder.com
sanim.net
sanstr.com
satka.net
saynotospams.com
scatmail.com
scay.net
schachrol.com
schafmail.de
schmeissweg.tk
schrott-email.de
sd3.in
secmail.pw
secretemail.de
secure-mail.biz
secure-mail.cc
secured-link.net
securehost.com.es
seekapps.com
sejkt.com
selfdestructingmail.com
selfdestructingmail.org
send22u.info
sendfree.org
sendingspecialflyers.com
sendspamhere.com
senseless-entertainment.com
services391.com
sexforswingers.com
sexical.com
sharedmailbox.org
sharklasers.com
shhmail.com
shhuut.org
shieldedmail.com
shieldemail.com
shiftmail.com
shipfromto.com
shiphazmat.org
shipping-regulations.com
shippingterms.org
shitmail.de
shitmail.me
shitmail.org
shitware.nl
shmeriously.com
shotmail.ru
showslow.de
shrib.com
shut.name
shut.ws
sibmail.com
sikux.com
siliwangi.ga
silvercoin.life";

/// Disposable domains from `sinnlos-mail.de` to `zxcvbnm.com`.
pub const DOMAINS_PART_4: &'static str = "\
sinnlos-mail.de
siteposter.net
skeefmail.com
sky-inbox.com
sky-ts.de
slapsfromlastnight.com
slaskpost.se
slave-auctions.net
slopsbox.com
slothmail.net
slushmail.com
sly.io
smap.4nmv.ru
smapfree24.com
smapfree24.de
smapfree24.eu
smapfree24.info
smapfree24.org
smashmail.de
smellfear.com
smellrear.com
smellypotato.tk
smtp99.com
smwg.info
snakemail.com
snapwet.com
sneakemail.com
sneakmail.de
snkmail.com
socialfurry.org
sofimail.com
sofort-mail.de
softpls.asia
sogetthis.com
sohai.ml
soisz.com
solar-impact.pro
solvemail.info
solventtrap.wiki
soodmail.com
soodomail.com
soodonims.com
spam-be-gone.com
spam.la
spam.org.es
spam.su
spam4.me
spamail.de
spamavert.com
spambob.com
spambob.net
spambob.org
spambog.com
spambog.de
spambog.net
spambog.ru
spambooger.com
spambox.info
spambox.org
spambox.us
spamcannon.com
spamcannon.net
spamcero.com
spamcon.org
spamcorptastic.com
spamcowboy.com
spamcowboy.net
spamcowboy.org
spamday.com
spamex.com
spamfighter.cf
spamfighter.ga
spamfighter.gq
spamfighter.ml
spamfighter.tk
spamfree.eu
spamfree24.com
spamfree24.de
spamfree24.eu
spamfree24.info
spamfree24.net
spamfree24.org
spamgoes.in
spamgourmet.com
spamgourmet.net
spamgourmet.org
spamherelots.com
spamhereplease.com
spamhole.com
spamify.com
spaminator.de
spamkill.info
spaml.com
spaml.de
spamlot.net
spammotel.com
spammy.host
spamobox.com
spamoff.de
spamsalad.in
spamslicer.com
spamsphere.com
spamspot.com
spamstack.net
spamthis.co.uk
spamthisplease.com
spamtrail.com
spamtrap.ro
spamtroll.net
spamwc.cf
spamwc.ga
spamwc.gq
spamwc.ml
speed.1s.fr
speedgaus.net
spikio.com
spoofmail.de
spr.io
spritzzone.de
spybox.de
squizzy.de
squizzy.net
sroff.com
sry.li
ssoia.com
stanfordujjain.com
starlight-breaker.net
startfu.com
startkeys.com
statdvr.com
stathost.net
statiix.com
steambot.net
stexsy.com
stinkefinger.net
stop-my-spam.cf
stop-my-spam.com
stop-my-spam.ga
stop-my-spam.ml
stop-my-spam.pp.ua
stop-my-spam.tk
streetwisemail.com
stromox.com
stuffmail.de
stumpfwerk.com
suburbanthug.com
suckmyd.com
sudolife.me
sudolife.net
sudomail.biz
sudomail.com
sudomail.net
sudoverse.com
sudoverse.net
sudoweb.net
sudoworld.com
sudoworld.net
suioe.com
super-auswahl.de
supergreatmail.com
supermailer.jp
superplatyna.com
superrito.com
superstachel.de
suremail.info
sute.jp
svk.jp
sweetxxx.de
swift10minutemail.com
sylvannet.com
symphonyresume.com
syosetu.gq
syujob.accountants
t.psh.me
t3t97d1d.com
tafmail.com
tafoi.gr
taglead.com
tagmymedia.com
tagyourself.com
talkinator.com
tanukis.org
tapchicuoihoi.com
taphear.com
tarzanmail.cf
tastrg.com
tb-on-line.net
techgroup.me
technoproxy.ru
teerest.com
teewars.org
tefl.ro
telecomix.pl
teleworm.com
teleworm.us
tellos.xyz
temp-link.net
temp-mail.com
temp-mail.de
temp-mail.org
temp-mail.pp.ua
temp-mail.ru
temp-mails.com
tempail.com
tempalias.com
tempe-mail.com
tempemail.biz
tempemail.co.za
tempemail.com
tempemail.net
tempemail.org
tempinbox.co.uk
tempinbox.com
tempm.com
tempmail.co
tempmail.de
tempmail.eu
tempmail.it
tempmail.pp.ua
tempmail.us
tempmail2.com
tempmaildemo.com
tempmailer.com
tempmailer.de
tempmailo.com
tempomail.fr
temporarily.de
temporarioemail.com.br
temporaryemail.net
temporaryemail.us
temporaryforwarding.com
temporaryinbox.com
temporarymailaddress.com
tempr.email
tempsky.com
tempthe.net
tempymail.com
tensi.org
ternaklele.ga
testore.co
testudine.com
thanksnospam.info
thankyou2010.com
thc.st
theaviors.com
thebearshark.com
thecloudindex.com
thediamants.org
thedirhq.info
thelightningmail.net
thelimestones.com
thembones.com.au
themostemail.com
thereddoors.online
thescrappermovie.com
theteastory.info
thex.ro
thietbivanphong.asia
thisisnotmyrealemail.com
thismail.net
thisurl.website
thnikka.com
thraml.com
thrma.com
throam.com
thrott.com
throwam.com
throwawayemailaddress.com
throwawaymail.com
throwawaymail.pp.ua
throya.com
thunkinator.org
thxmate.com
tic.ec
tilien.com
timgiarevn.com
timkassouf.com
tinoza.org
tinyurl24.com
tittbit.in
tiv.cc
tizi.com
tkitc.de
tlpn.org
tmail.ws
tmailinator.com
tmpbox.net
tmpeml.info
tmpjr.me
tmpmail.net
tmpmail.org
toddsbighug.com
toiea.com
tokem.co
tokenmail.de
tonymanso.com
toomail.biz
toonusfit.com
top101.de
top1mail.ru
top1post.ru
topinrock.cf
topofertasdehoy.com
topranklist.de
toprumours.com
tormail.org
toss.pw
tosunkaya.com
totalvista.com
totesmail.com
tp-qa-mail.com
tqoai.com
tradermail.info
tranceversal.com
trash-amil.com
trash-mail.at
trash-mail.cf
trash-mail.com
trash-mail.de
trash-mail.ga
trash-mail.gq
trash-mail.ml
trash-mail.tk
trash-me.com
trash2009.com
trash2010.com
trash2011.com
trashcanmail.com
trashdevil.com
trashdevil.de
trashemail.de
trashemails.de
trashimail.de
trashinbox.com
trashmail.at
trashmail.com
trashmail.de
trashmail.io
trashmail.me
trashmail.net
trashmail.org
trashmail.ws
trashmailer.com
trashymail.com
trashymail.net
trayna.com
trbvm.com
trbvn.com
trbvo.com
trialmail.de
trickmail.net
tripaco.com
trollproject.com
tropicalbass.info
trungtamtoeic.com
tryalert.com
ttszuo.xyz
tualias.com
turoid.com
turual.com
tvchd.com
tverya.com
twinmail.de
twkly.ml
twocowmail.net
twoweirdtricks.com
txtadvertise.com
tyldd.com
ubismail.net
ubm.md
ufacturing.com
uggsrock.com
uguuchantele.com
uhhu.ru
unimark.org
unit7lahaina.com
unmail.ru
upliftnow.com
uplipht.com
uploadnolimit.com
urfunktion.se
uroid.com
usbc.be
ushijima1129.cf
uwork4.us
uyhip.com
vaasfc4.tk
vaati.org
valemail.net
valhalladev.com
vankin.de
vda.ro
vdig.com
veanlo.com
vemomail.win
venompen.com
veryday.ch
veryday.eu
veryday.info
veryrealemail.com
vesa.pw
vfemail.net
vickaentb.tk
victime.ninja
victoriantwins.com
vidchart.com
viditag.com
viewcastmedia.com
viewcastmedia.net
viewcastmedia.org
vikingsonly.com
vinernet.com
vipepe.com
vipmail.name
vipmail.pw
vipxm.net
viralplays.com
vixletdev.com
vkcode.ru
vmailing.info
vmani.com
vmpanda.com
voidbay.com
vomoto.com
vorga.org
votiputox.org
voxelcore.com
vpn.st
vps30.com
vps911.net
vrmtr.com
vsimcard.com
vubby.com
vztc.com
w3internet.co.uk
wakingupesther.com
walala.org
walkmail.net
walkmail.ru
wasteland.rfc822.org
watch-harry-potter.com
watchever.biz
watchfull.net
watchironman3onlinefreefullmovie.com
wbml.net
web-contact.info
web-ideal.fr
web-mail.pp.ua
webcontact-france.eu
webemail.me
webm4il.info
webtrip.ch
webuser.in
wee.my
wefjo.grn.cc
weg-werf-email.de
wegwerf-email-addressen.de
wegwerf-email-adressen.de
wegwerf-email.at
wegwerf-email.de
wegwerf-email.net
wegwerf-emails.de
wegwerfadresse.de
wegwerfemail.com
wegwerfemail.de
wegwerfemail.info
wegwerfemail.net
wegwerfemail.org
wegwerfemailadresse.com
wegwerfmail.de
wegwerfmail.info
wegwerfmail.net
wegwerfmail.org
wegwerpmailadres.nl
wegwrfmail.de
wegwrfmail.net
wegwrfmail.org
welikecookies.com
wetrainbayarea.com
wetrainbayarea.org
wg0.com
wh4f.org
whatiaas.com
whatifanalytics.com
whatpaas.com
whatsaas.com
whiffles.org
whopy.com
whtjddn.33mail.com
whyspam.me
wibblesmith.com
wickmail.net
widget.gg
wilemail.com
willhackforfood.biz
willselfdestruct.com
wimsg.com
winemaven.info
wmail.cf
wolfsmail.tk
wollan.info
worldspace.link
wovz.cu.cc
wpg.im
wr9v6at7.com
writeme.us
wronghead.com
wuzup.net
wuzupmail.net
wwwnew.eu
wxnw.net
xagloo.co
xagloo.com
xcodes.net
xcompress.com
xcpy.com
xemaps.com
xents.com
xjoi.com
xkx.me
xmaily.com
xoxox.cc
xperiae5.com
xrho.com
xwaretech.com
xwaretech.info
xwaretech.net
xww.ro
xyzfree.net
yanet.me
yapped.net
yaqp.com
ycare.de
ye.vc
yedi.org
yep.it
yert.ye.vc
yhg.biz
ynmrealty.com
yodx.ro
yogamaven.com
yomail.info
yopmail.com
yopmail.fr
yopmail.gq
yopmail.net
yopmail.pp.ua
yordanmail.cf
you-spam.com
yougotgoated.com
youmail.ga
youmailr.com
youneedmore.info
youpymail.com
youremail.cf
yourewronghereswhy.com
yourlms.biz
yourspamgoesto.space
ypmail.webarnak.fr.eu.org
yspend.com
yugasandrika.com
yui.it
yuurok.com
yxzx.net
z1p.biz
zain.site
zainmax.net
zaktouni.fr
zasod.com
zebins.com
zebins.eu
zehnminuten.de
zehnminutenmail.de
zepp.dk
zetmail.com
zfymail.com
zhaoyuanedu.cn
zhcne.com
zhorachu.com
zik.dyndns.org
zippymail.info
zipsendtest.com
zoaxe.com
zoemail.com
zoemail.net
zoemail.org
zoetropes.org
zombie-hive.com
zomg.info
zsero.com
zumpul.com
zxcvbnm.com";

} // verus!
